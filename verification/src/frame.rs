//! Decoded frames and the single-slot frame buffer that exposes the
//! latest one for presentation.
//!
//! Pixel conversion to the stable output layout (32-bit, 4 channels,
//! alpha last) is a pure function: the same input bytes and dimensions
//! always produce the same output bytes.

use vstd::prelude::*;

verus! {

/// A decoded, scaled image: raw pixel bytes in a fixed layout, its
/// dimensions, and its presentation timestamp relative to the source it
/// was decoded from. Immutable once produced.
#[derive(Clone, Debug)]
pub struct VideoFrame {
    pub data: Vec<u8>,
    pub width: u32,
    pub height: u32,
    /// Presentation time within the source, milliseconds.
    pub timestamp_ms: u64,
}

/// Holds at most one frame: the latest successfully decoded one. Reading
/// never blocks and never triggers decode; decode is always a side effect
/// of reading from a session.
pub struct FrameBuffer {
    pub frame: Option<VideoFrame>,
}

impl FrameBuffer {
    /// An empty buffer.
    pub fn new() -> (b: FrameBuffer)
        ensures
            b.frame is None,
    {
        FrameBuffer { frame: None }
    }

    /// Replaces the held frame with a newly decoded one.
    pub fn store(&mut self, frame: VideoFrame)
        ensures
            final(self).frame == Some(frame),
    {
        self.frame = Some(frame);
    }

    /// Drops the held frame; a seek invalidates whatever was buffered.
    pub fn invalidate(&mut self)
        ensures
            final(self).frame is None,
    {
        self.frame = None;
    }

    /// The latest decoded frame, if any.
    pub fn get_current(&self) -> (r: Option<&VideoFrame>)
        ensures
            match r {
                Some(f) => self.frame == Some(*f),
                None => self.frame is None,
            },
    {
        self.frame.as_ref()
    }
}

/// The index within a 4-byte BGRA pixel that output channel `c` of the
/// RGBA layout reads from: red and blue swap, green and alpha stay.
pub open spec fn bgra_source_channel(c: int) -> int {
    if c == 0 {
        2
    } else if c == 2 {
        0
    } else {
        c
    }
}

/// The RGBA bytes produced from BGRA input: one output pixel per complete
/// 4-byte input pixel, channels swizzled; a trailing partial pixel is
/// dropped.
pub open spec fn rgba_of_bgra(d: Seq<u8>) -> Seq<u8> {
    Seq::new((d.len() / 4 * 4) as nat, |k: int| d[4 * (k / 4) + bgra_source_channel(k % 4)])
}

/// Converts a frame's pixel bytes from the BGRA order native decoders
/// hand out to the RGBA order the presenter consumes.
pub fn convert_frame_to_rgba(frame: &VideoFrame) -> (r: Vec<u8>)
    ensures
        r@ == rgba_of_bgra(frame.data@),
        r@.len() == frame.data@.len() / 4 * 4,
{
    let d = &frame.data;
    let len = d.len();
    let n = len / 4;
    let mut out: Vec<u8> = Vec::new();
    let mut i: usize = 0;
    let mut j: usize = 0;
    while i < n
        invariant
            len == d@.len(),
            n == d@.len() / 4,
            i <= n,
            j == 4 * i,
            out@.len() == 4 * i,
            forall|k: int| 0 <= k < 4 * i ==> out@[k] == rgba_of_bgra(d@)[k],
        decreases n - i,
    {
        proof {
            assert(j + 3 < d@.len()) by {
                assert(d@.len() / 4 * 4 <= d@.len());
            }
            assert((j + 2) as int == 4 * ((4 * i as int) / 4) + bgra_source_channel(
                (4 * i as int) % 4,
            ));
        }
        out.push(d[j + 2]);
        out.push(d[j + 1]);
        out.push(d[j]);
        out.push(d[j + 3]);
        i = i + 1;
        j = j + 4;
    }
    proof {
        assert(out@ =~= rgba_of_bgra(d@));
    }
    out
}

} // verus!
