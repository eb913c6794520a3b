use vstd::prelude::*;

pub mod audio;
pub mod decoder;
pub mod frame;
pub mod mov_parser;
pub mod scheduler;
pub mod timeline;

verus! {

/// Failure kinds surfaced by the playback engine.
///
/// `OpenFailed`: the container was unreadable or held no decodable video
/// stream. `SeekFailed`: the backend could not reposition its cursor; the
/// caller recovers by opening a fresh decode session. `SplitRejected`: a
/// split point fell outside the clip's open time interval. `DecodeStall`:
/// no presentable frame was produced within the bounded number of
/// catch-up attempts.
#[derive(Clone, Copy, Debug, PartialEq, Eq, Structural)]
pub enum MediaError {
    OpenFailed,
    SeekFailed,
    SplitRejected,
    DecodeStall,
}

} // verus!
