//! Model of one live decode session: the seek cursor of a decode backend
//! over one source.
//!
//! The real backends (a cross-platform demux/decode/scale pipeline and a
//! platform-native asset reader) do native codec I/O and live outside this
//! library; the scheduler and its caller track their externally visible
//! behaviour through this model: `seek` lands on the keyframe at or before
//! the target and invalidates any buffered frame, and `read_next_frame`
//! advances by exactly one presentable frame until end of stream.

use vstd::prelude::*;

use vstd::arithmetic::div_mod::{lemma_mod_bound, lemma_mod_decreases};

use crate::timeline::VideoInfo;

verus! {

/// The decode-cursor state of one open session.
#[derive(Clone, Copy, Debug, PartialEq, Eq, Structural)]
pub struct DecoderSession {
    /// Total source duration in milliseconds.
    pub duration_ms: u64,
    /// Source-time spacing of successive presentable frames (> 0).
    pub frame_interval_ms: u64,
    /// Source-time spacing of seekable keyframes (> 0); seeks land on
    /// multiples of it.
    pub keyframe_interval_ms: u64,
    /// Source time of the next frame the session will produce.
    pub cursor_ms: u64,
}

impl DecoderSession {
    /// Both intervals are positive and one frame step past the duration
    /// still fits in `u64`.
    pub open spec fn wf(self) -> bool {
        &&& self.frame_interval_ms > 0
        &&& self.keyframe_interval_ms > 0
        &&& self.duration_ms + self.frame_interval_ms <= u64::MAX
    }

    /// The keyframe at or before a target: the largest multiple of the
    /// keyframe interval not beyond it.
    pub open spec fn keyframe_before(self, target_ms: u64) -> int {
        target_ms - (target_ms as int) % (self.keyframe_interval_ms as int)
    }

    /// `seek` repositions the cursor to the keyframe at or before the
    /// target.
    pub open spec fn seek_spec(self, target_ms: u64) -> DecoderSession {
        DecoderSession { cursor_ms: self.keyframe_before(target_ms) as u64, ..self }
    }

    /// `read_next_frame` produces the frame at the cursor and advances by
    /// one frame interval, or reports end of stream once the cursor is at
    /// or past the duration.
    pub open spec fn read_spec(self) -> (DecoderSession, Option<u64>) {
        if self.cursor_ms >= self.duration_ms {
            (self, None)
        } else {
            (
                DecoderSession {
                    cursor_ms: (self.cursor_ms + self.frame_interval_ms) as u64,
                    ..self
                },
                Some(self.cursor_ms),
            )
        }
    }

    /// A session over a freshly opened source: cursor at 0.
    pub fn open(info: &VideoInfo, frame_interval_ms: u64, keyframe_interval_ms: u64) -> (s:
        DecoderSession)
        requires
            frame_interval_ms > 0,
            keyframe_interval_ms > 0,
            info.duration_ms + frame_interval_ms <= u64::MAX,
        ensures
            s.wf(),
            s.duration_ms == info.duration_ms,
            s.frame_interval_ms == frame_interval_ms,
            s.keyframe_interval_ms == keyframe_interval_ms,
            s.cursor_ms == 0,
    {
        DecoderSession {
            duration_ms: info.duration_ms,
            frame_interval_ms,
            keyframe_interval_ms,
            cursor_ms: 0,
        }
    }

    /// Repositions the cursor to the nearest keyframe at or before
    /// `target_ms`. Any frame buffered by the caller is stale afterwards
    /// and must be re-decoded forward from the new cursor.
    pub fn seek(&mut self, target_ms: u64)
        requires
            old(self).wf(),
        ensures
            *final(self) == old(self).seek_spec(target_ms),
            final(self).wf(),
            final(self).cursor_ms <= target_ms,
            target_ms - final(self).cursor_ms < old(self).keyframe_interval_ms,
    {
        proof {
            lemma_mod_decreases(target_ms as nat, self.keyframe_interval_ms as nat);
            lemma_mod_bound(target_ms as int, self.keyframe_interval_ms as int);
        }
        self.cursor_ms = target_ms - target_ms % self.keyframe_interval_ms;
    }

    /// Advances by exactly one presentable frame: returns its source
    /// timestamp, or `None` at end of stream.
    pub fn read_next_frame(&mut self) -> (r: Option<u64>)
        requires
            old(self).wf(),
        ensures
            (*final(self), r) == old(self).read_spec(),
            final(self).wf(),
            r matches Some(ts) ==> ts == old(self).cursor_ms && ts < old(self).duration_ms
                && final(self).cursor_ms == ts + old(self).frame_interval_ms,
            r is None ==> *final(self) == *old(self),
    {
        if self.cursor_ms >= self.duration_ms {
            None
        } else {
            let ts = self.cursor_ms;
            self.cursor_ms = self.cursor_ms + self.frame_interval_ms;
            Some(ts)
        }
    }
}

/// Frames come out of a session in strictly increasing source order: of
/// two successive reads that both produce a frame, the second frame's
/// timestamp is larger.
pub proof fn lemma_read_monotonic(s: DecoderSession)
    requires
        s.wf(),
    ensures
        ({
            let (s1, r1) = s.read_spec();
            let (s2, r2) = s1.read_spec();
            r1 matches Some(f1) ==> r2 matches Some(f2) ==> f1 < f2
        }),
{
}

/// Seek/read round trip: after `seek(t)`, the first frame produced is at
/// or before `t`, within one keyframe interval of it, and every later
/// frame is at or after the first; timestamps never decrease across
/// repeated reads.
pub proof fn lemma_seek_then_read(s: DecoderSession, target_ms: u64)
    requires
        s.wf(),
    ensures
        s.seek_spec(target_ms).wf(),
        ({
            let (s1, r1) = s.seek_spec(target_ms).read_spec();
            &&& (r1 matches Some(f1) ==> f1 <= target_ms && target_ms - f1
                < s.keyframe_interval_ms)
            &&& (r1 matches Some(f1) ==> s1.read_spec().1 matches Some(f2) ==> f1 < f2)
        }),
{
    lemma_mod_decreases(target_ms as nat, s.keyframe_interval_ms as nat);
    lemma_mod_bound(target_ms as int, s.keyframe_interval_ms as int);
    lemma_read_monotonic(s.seek_spec(target_ms));
}

} // verus!
