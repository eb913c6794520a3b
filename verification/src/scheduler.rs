//! Playback scheduler: a `Stopped` / `Playing` / `Paused` state machine
//! that advances a global playhead, resolves it against the timeline and
//! decides, each tick, whether the decode backend must seek or may keep
//! reading sequentially.
//!
//! The scheduler only decides; the caller performs the returned
//! [`TickAction`] on the real backend and reports what happened back
//! through [`Scheduler::note_frame`] and [`Scheduler::note_seek_failed`].
//!
//! Known constraint: audio is driven by the same play/pause transitions
//! but is not resynchronized to the resolved video source time after a
//! seek; the drift stays bounded by how often seeks occur.

use vstd::prelude::*;

use crate::timeline::{resolve_spec, timeline_end_of, lemma_timeline_end_bounds, Clip, Timeline};

verus! {

/// How far ahead of the decoder's cursor a resolved source time may lie
/// before sequential reading is abandoned for a seek, in milliseconds.
pub const SEEK_TOLERANCE_MS: u64 = 250;

/// How many behind-target frames may be discarded while catching up after
/// a seek before the tick reports a decode stall.
pub const MAX_FRAME_SKIP: u64 = 5;

#[derive(Clone, Copy, Debug, PartialEq, Eq, Structural)]
pub enum PlayState {
    Stopped,
    Playing,
    Paused,
}

/// What the caller must do with the decode backend after one tick.
#[derive(Clone, Copy, Debug, PartialEq, Eq, Structural)]
pub enum TickAction {
    /// Not playing: nothing to do.
    Idle,
    /// The playhead ran past the end of the last clip: playback stopped
    /// and the playhead rewound to 0.
    Finished,
    /// The playhead sits in a gap: hold the last presented frame and do
    /// not decode.
    Hold,
    /// Discontinuity (clip switch, scrub or stale cursor): seek the
    /// source of `clip_id` to `source_ms`, then read forward.
    Seek { clip_id: u64, source_ms: u64 },
    /// Continuous playback: keep reading frames from `clip_id`,
    /// discarding those behind `target_ms`.
    Read { clip_id: u64, target_ms: u64 },
}

/// What to do with one decoded frame while catching up to a target.
#[derive(Clone, Copy, Debug, PartialEq, Eq, Structural)]
pub enum FrameJudgment {
    /// The frame is at or past the target: present it.
    Present,
    /// The frame is behind the target and the skip budget remains:
    /// discard it and read again.
    Discard,
    /// The frame is behind the target but the skip budget is exhausted:
    /// stop catching up and report a decode stall.
    Stall,
}

/// The playback scheduler's whole state: the state machine, the global
/// playhead, and a model of which clip and source time the decode backend
/// currently sits at.
#[derive(Clone, Copy, Debug, PartialEq, Eq, Structural)]
pub struct Scheduler {
    pub state: PlayState,
    /// Global timeline position in milliseconds.
    pub playhead_ms: u64,
    /// Clip the playhead resolved to at the previous tick, if any.
    pub current_clip: Option<u64>,
    /// Source time the decode backend is expected to sit at; `None` when
    /// unknown or invalidated (fresh start, gap exit, failed seek).
    pub cursor_ms: Option<u64>,
}

/// Judgment on a decoded frame: present it when at or past the target,
/// discard while the skip budget lasts, otherwise report a stall.
pub open spec fn judge_frame_spec(frame_ms: u64, target_ms: u64, skipped: u64) -> FrameJudgment {
    if frame_ms >= target_ms {
        FrameJudgment::Present
    } else if skipped < MAX_FRAME_SKIP {
        FrameJudgment::Discard
    } else {
        FrameJudgment::Stall
    }
}

/// Decides what to do with one decoded frame while catching up to
/// `target_ms`, after `skipped` frames have already been discarded.
pub fn judge_frame(frame_ms: u64, target_ms: u64, skipped: u64) -> (j: FrameJudgment)
    ensures
        j == judge_frame_spec(frame_ms, target_ms, skipped),
{
    if frame_ms >= target_ms {
        FrameJudgment::Present
    } else if skipped < MAX_FRAME_SKIP {
        FrameJudgment::Discard
    } else {
        FrameJudgment::Stall
    }
}

impl Scheduler {
    /// The initial state: stopped at playhead 0 with no decode session.
    pub open spec fn initial_spec() -> Scheduler {
        Scheduler { state: PlayState::Stopped, playhead_ms: 0, current_clip: None, cursor_ms: None }
    }

    /// `play` moves any state to `Playing` and changes nothing else; on a
    /// scheduler already playing it is a no-op.
    pub open spec fn play_spec(self) -> Scheduler {
        Scheduler { state: PlayState::Playing, ..self }
    }

    /// `pause` suspends a playing scheduler; in any other state it is a
    /// no-op.
    pub open spec fn pause_spec(self) -> Scheduler {
        if self.state is Playing {
            Scheduler { state: PlayState::Paused, ..self }
        } else {
            self
        }
    }

    /// `stop` rewinds the playhead to 0 and forgets the decode session,
    /// from any state.
    pub open spec fn stop_spec(self) -> Scheduler {
        Scheduler { state: PlayState::Stopped, playhead_ms: 0, current_clip: None, cursor_ms: None }
    }

    /// A seek is needed when the resolved clip differs from the previous
    /// tick's, the cursor is unknown, or the resolved source time is not
    /// within a small forward tolerance of the cursor.
    pub open spec fn needs_seek(self, clip_id: u64, source_ms: u64) -> bool {
        ||| self.current_clip != Some(clip_id)
        ||| match self.cursor_ms {
            None => true,
            Some(cur) => source_ms < cur || source_ms > cur + SEEK_TOLERANCE_MS,
        }
    }

    /// One advance tick: add the elapsed wall-clock delta to the playhead,
    /// auto-stop past the end of the last clip, otherwise resolve the new
    /// instant and choose between holding (gap), seeking (discontinuity)
    /// and sequential reading.
    pub open spec fn tick_spec(self, elapsed_ms: u64, clips: Seq<Clip>) -> (Scheduler, TickAction) {
        if !(self.state is Playing) {
            (self, TickAction::Idle)
        } else if self.playhead_ms + elapsed_ms >= timeline_end_of(clips) {
            (self.stop_spec(), TickAction::Finished)
        } else {
            let pos = (self.playhead_ms + elapsed_ms) as u64;
            match resolve_spec(clips, pos) {
                None => (
                    Scheduler { playhead_ms: pos, current_clip: None, ..self },
                    TickAction::Hold,
                ),
                Some((clip_id, source_ms)) => {
                    let moved = Scheduler {
                        state: self.state,
                        playhead_ms: pos,
                        current_clip: Some(clip_id),
                        cursor_ms: Some(source_ms),
                    };
                    if self.needs_seek(clip_id, source_ms) {
                        (moved, TickAction::Seek { clip_id, source_ms })
                    } else {
                        (moved, TickAction::Read { clip_id, target_ms: source_ms })
                    }
                },
            }
        }
    }

    /// A scheduler in its initial state.
    pub fn new() -> (s: Scheduler)
        ensures
            s == Scheduler::initial_spec(),
    {
        Scheduler {
            state: PlayState::Stopped,
            playhead_ms: 0,
            current_clip: None,
            cursor_ms: None,
        }
    }

    /// Starts or resumes playback.
    pub fn play(&mut self)
        ensures
            *final(self) == old(self).play_spec(),
            final(self).state is Playing,
            old(self).state is Playing ==> *final(self) == *old(self),
    {
        self.state = PlayState::Playing;
    }

    /// Suspends playback; a no-op unless playing.
    pub fn pause(&mut self)
        ensures
            *final(self) == old(self).pause_spec(),
            !(final(self).state is Playing),
    {
        match self.state {
            PlayState::Playing => {
                self.state = PlayState::Paused;
            },
            _ => {},
        }
    }

    /// Stops playback and rewinds the playhead to 0.
    pub fn stop(&mut self)
        ensures
            *final(self) == old(self).stop_spec(),
    {
        self.state = PlayState::Stopped;
        self.playhead_ms = 0;
        self.current_clip = None;
        self.cursor_ms = None;
    }

    /// Scrubs the playhead to a global instant. The next tick detects the
    /// jump through the cursor tolerance and issues a seek if needed.
    pub fn set_playhead(&mut self, global_ms: u64)
        ensures
            *final(self) == (Scheduler { playhead_ms: global_ms, ..*old(self) }),
    {
        self.playhead_ms = global_ms;
    }

    /// Records the source timestamp of the frame the caller just
    /// presented, so the next tick can tell sequential progress from a
    /// discontinuity.
    pub fn note_frame(&mut self, source_ms: u64)
        ensures
            *final(self) == (Scheduler { cursor_ms: Some(source_ms), ..*old(self) }),
    {
        self.cursor_ms = Some(source_ms);
    }

    /// Records that a seek failed: the decode cursor is unknown, so the
    /// next tick issues a fresh seek after the caller re-opens the
    /// session.
    pub fn note_seek_failed(&mut self)
        ensures
            *final(self) == (Scheduler { current_clip: None, cursor_ms: None, ..*old(self) }),
    {
        self.current_clip = None;
        self.cursor_ms = None;
    }

    /// One advance tick; see [`Scheduler::tick_spec`].
    pub fn tick(&mut self, elapsed_ms: u64, timeline: &Timeline) -> (a: TickAction)
        requires
            timeline.wf(),
        ensures
            *final(self) == old(self).tick_spec(elapsed_ms, timeline.clips@).0,
            a == old(self).tick_spec(elapsed_ms, timeline.clips@).1,
    {
        match self.state {
            PlayState::Playing => {},
            _ => {
                return TickAction::Idle;
            },
        }
        let end = timeline.timeline_end();
        let advanced: u128 = self.playhead_ms as u128 + elapsed_ms as u128;
        if advanced >= end as u128 {
            self.state = PlayState::Stopped;
            self.playhead_ms = 0;
            self.current_clip = None;
            self.cursor_ms = None;
            return TickAction::Finished;
        }
        proof {
            lemma_timeline_end_bounds(timeline.clips@);
        }
        let pos = advanced as u64;
        match timeline.resolve(pos) {
            None => {
                self.playhead_ms = pos;
                self.current_clip = None;
                TickAction::Hold
            },
            Some((clip_id, source_ms)) => {
                let stale = match self.current_clip {
                    None => true,
                    Some(cc) => cc != clip_id,
                };
                let jumped = match self.cursor_ms {
                    None => true,
                    Some(cur) => source_ms < cur
                        || source_ms as u128 > cur as u128 + SEEK_TOLERANCE_MS as u128,
                };
                self.playhead_ms = pos;
                self.current_clip = Some(clip_id);
                self.cursor_ms = Some(source_ms);
                if stale || jumped {
                    TickAction::Seek { clip_id, source_ms }
                } else {
                    TickAction::Read { clip_id, target_ms: source_ms }
                }
            },
        }
    }
}

/// Pressing play twice in a row is the same as pressing it once: the
/// second press is a no-op and the scheduler is in `Playing` exactly
/// once, with nothing else changed.
pub proof fn lemma_play_idempotent(s: Scheduler)
    ensures
        s.play_spec().play_spec() == s.play_spec(),
        s.play_spec().state is Playing,
        s.play_spec().playhead_ms == s.playhead_ms,
        s.play_spec().current_clip == s.current_clip,
        s.play_spec().cursor_ms == s.cursor_ms,
{
}

} // verus!
