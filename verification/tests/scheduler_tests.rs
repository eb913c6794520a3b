use movedit::scheduler::{
    judge_frame, FrameJudgment, PlayState, Scheduler, TickAction, MAX_FRAME_SKIP,
    SEEK_TOLERANCE_MS,
};
use movedit::timeline::{Timeline, VideoInfo};

fn source_10s() -> VideoInfo {
    VideoInfo { width: 1920, height: 1080, fps: 30, duration_ms: 10_000, has_audio: true }
}

#[test]
fn play_twice_leaves_playing_once() {
    let mut s = Scheduler::new();
    s.play();
    let after_first = s;
    s.play();
    assert_eq!(s.state, PlayState::Playing);
    assert_eq!(s, after_first);
}

#[test]
fn state_machine_transitions() {
    let mut s = Scheduler::new();
    assert_eq!(s.state, PlayState::Stopped);
    s.play();
    assert_eq!(s.state, PlayState::Playing);
    s.pause();
    assert_eq!(s.state, PlayState::Paused);
    // Pausing when not playing is a no-op.
    s.pause();
    assert_eq!(s.state, PlayState::Paused);
    s.play();
    assert_eq!(s.state, PlayState::Playing);
    s.set_playhead(5_000);
    s.stop();
    assert_eq!(s.state, PlayState::Stopped);
    assert_eq!(s.playhead_ms, 0);
}

#[test]
fn playback_runs_past_end_and_stops() {
    // Play from Stopped at playhead 0; after a simulated 10.5 s elapsed
    // with a single 10 s clip covering the whole timeline, the scheduler
    // is back in Stopped with the playhead reset to 0.
    let mut t = Timeline::new();
    t.load(source_10s());
    let mut s = Scheduler::new();
    s.play();
    let action = s.tick(10_500, &t);
    assert_eq!(action, TickAction::Finished);
    assert_eq!(s.state, PlayState::Stopped);
    assert_eq!(s.playhead_ms, 0);
}

#[test]
fn tick_seeks_then_reads_sequentially() {
    let mut t = Timeline::new();
    let clip = t.load(source_10s());
    let mut s = Scheduler::new();
    s.play();
    // First tick: no decode cursor yet, so a seek is demanded.
    assert_eq!(s.tick(100, &t), TickAction::Seek { clip_id: clip, source_ms: 100 });
    assert_eq!(s.playhead_ms, 100);
    // Within the forward tolerance: sequential reading continues.
    assert_eq!(s.tick(100, &t), TickAction::Read { clip_id: clip, target_ms: 200 });
    // A jump beyond the tolerance demands a fresh seek.
    let jump = SEEK_TOLERANCE_MS + 1;
    assert_eq!(s.tick(jump, &t), TickAction::Seek { clip_id: clip, source_ms: 200 + jump });
}

#[test]
fn tick_holds_on_gap_and_seeks_out_of_it() {
    let mut t = Timeline::new();
    let clip = t.load(source_10s());
    t.split(clip, 4_000).unwrap();
    let second = t.clips[1].id;
    t.delete(clip);
    let mut s = Scheduler::new();
    s.play();
    // 2 s lies in the gap left by the deleted clip: hold the last frame.
    assert_eq!(s.tick(2_000, &t), TickAction::Hold);
    assert_eq!(s.playhead_ms, 2_000);
    // Advancing into the surviving clip requires a seek to its source
    // time, clip.start + (global - clip.position) = 5 s.
    assert_eq!(s.tick(3_000, &t), TickAction::Seek { clip_id: second, source_ms: 5_000 });
}

#[test]
fn tick_is_idle_unless_playing() {
    let mut t = Timeline::new();
    t.load(source_10s());
    let mut s = Scheduler::new();
    assert_eq!(s.tick(1_000, &t), TickAction::Idle);
    assert_eq!(s.playhead_ms, 0);
    s.play();
    s.pause();
    assert_eq!(s.tick(1_000, &t), TickAction::Idle);
    assert_eq!(s.playhead_ms, 0);
}

#[test]
fn tick_on_empty_timeline_finishes_at_once() {
    let t = Timeline::new();
    let mut s = Scheduler::new();
    s.play();
    assert_eq!(s.tick(0, &t), TickAction::Finished);
    assert_eq!(s.state, PlayState::Stopped);
}

#[test]
fn seek_failure_forces_fresh_seek() {
    let mut t = Timeline::new();
    let clip = t.load(source_10s());
    let mut s = Scheduler::new();
    s.play();
    assert_eq!(s.tick(100, &t), TickAction::Seek { clip_id: clip, source_ms: 100 });
    // The backend reported the seek failed: the cursor is unknown, so the
    // very next tick seeks again instead of reading sequentially.
    s.note_seek_failed();
    assert_eq!(s.tick(10, &t), TickAction::Seek { clip_id: clip, source_ms: 110 });
    // A presented frame re-establishes the cursor and reading resumes.
    s.note_frame(110);
    assert_eq!(s.tick(10, &t), TickAction::Read { clip_id: clip, target_ms: 120 });
}

#[test]
fn judge_frame_presents_discards_and_stalls() {
    // At or past the target: present.
    assert_eq!(judge_frame(500, 500, 0), FrameJudgment::Present);
    assert_eq!(judge_frame(600, 500, MAX_FRAME_SKIP), FrameJudgment::Present);
    // Behind the target with budget left: discard and read again.
    assert_eq!(judge_frame(499, 500, 0), FrameJudgment::Discard);
    assert_eq!(judge_frame(0, 500, MAX_FRAME_SKIP - 1), FrameJudgment::Discard);
    // Budget exhausted: report a stall.
    assert_eq!(judge_frame(499, 500, MAX_FRAME_SKIP), FrameJudgment::Stall);
}
