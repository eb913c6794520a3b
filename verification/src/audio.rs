//! Audio output controller: the play/pause/stop state of the playback
//! sink bound to one opened source.
//!
//! The sink itself runs on an output device's own execution context
//! outside this library; the controller tracks the commanded state and
//! lets the caller fold the sink's actually observed state back in, so
//! that `is_playing` can reflect a silently stalled sink rather than the
//! last issued command.

use vstd::prelude::*;

verus! {

/// Controller for the audio sink of one opened source. Every transition
/// is idempotent, and all of them are no-ops when the source has no audio
/// track.
#[derive(Clone, Copy, Debug, PartialEq, Eq, Structural)]
pub struct AudioController {
    /// Whether the source has an audio track at all.
    pub has_audio: bool,
    /// Whether the sink is playing, as far as the controller knows.
    pub playing: bool,
}

impl AudioController {
    /// A controller for a source; silent until `play`.
    pub fn new(has_audio: bool) -> (c: AudioController)
        ensures
            c.has_audio == has_audio,
            !c.playing,
    {
        AudioController { has_audio, playing: false }
    }

    /// Starts playback; a no-op when already playing or without audio.
    pub fn play(&mut self)
        ensures
            final(self).has_audio == old(self).has_audio,
            final(self).playing == old(self).has_audio,
            old(self).playing == old(self).has_audio ==> *final(self) == *old(self),
    {
        if self.has_audio {
            self.playing = true;
        } else {
            self.playing = false;
        }
    }

    /// Pauses playback; a no-op when already paused or without audio.
    pub fn pause(&mut self)
        ensures
            final(self).has_audio == old(self).has_audio,
            !final(self).playing,
            !old(self).playing ==> *final(self) == *old(self),
    {
        self.playing = false;
    }

    /// Stops playback; a no-op when already silent.
    pub fn stop(&mut self)
        ensures
            final(self).has_audio == old(self).has_audio,
            !final(self).playing,
            !old(self).playing ==> *final(self) == *old(self),
    {
        self.playing = false;
    }

    /// Whether audio is playing, per the controller's latest knowledge of
    /// the sink.
    pub fn is_playing(&self) -> (r: bool)
        ensures
            r == self.playing,
    {
        self.playing
    }

    /// Folds in the sink's actually observed state: a stalled sink stops
    /// reporting as playing even though `play` was the last command. A
    /// source without audio stays silent whatever is reported.
    pub fn sync_with_sink(&mut self, sink_playing: bool)
        ensures
            final(self).has_audio == old(self).has_audio,
            final(self).playing == (old(self).has_audio && sink_playing),
    {
        self.playing = self.has_audio && sink_playing;
    }
}

} // verus!
