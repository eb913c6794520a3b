use movedit::timeline::{Timeline, VideoInfo};
use movedit::MediaError;

fn source_10s() -> VideoInfo {
    VideoInfo { width: 1920, height: 1080, fps: 30, duration_ms: 10_000, has_audio: true }
}

#[test]
fn load_creates_full_clip_at_zero() {
    let mut t = Timeline::new();
    let id = t.load(source_10s());
    assert_eq!(id, 0);
    assert_eq!(t.clips.len(), 1);
    assert_eq!(t.clips[0].start_ms, 0);
    assert_eq!(t.clips[0].end_ms, 10_000);
    assert_eq!(t.clips[0].position_ms, 0);
    assert_eq!(t.next_id, 1);
}

#[test]
fn split_partitions_at_cut() {
    let mut t = Timeline::new();
    let id = t.load(source_10s());
    assert!(t.split(id, 4_000).is_ok());
    assert_eq!(t.clips.len(), 2);
    assert_eq!(t.clips[0].id, 0);
    assert_eq!(t.clips[0].start_ms, 0);
    assert_eq!(t.clips[0].end_ms, 4_000);
    assert_eq!(t.clips[0].position_ms, 0);
    assert_eq!(t.clips[1].id, 1);
    assert_eq!(t.clips[1].start_ms, 4_000);
    assert_eq!(t.clips[1].end_ms, 10_000);
    assert_eq!(t.clips[1].position_ms, 4_000);
    // The cut instant on the global timeline resolves to the new clip.
    assert_eq!(t.resolve(4_000), Some((1, 4_000)));
    // The instant just before still belongs to the original clip.
    assert_eq!(t.resolve(3_999), Some((0, 3_999)));
}

#[test]
fn split_rejected_outside_open_interval() {
    let mut t = Timeline::new();
    let id = t.load(source_10s());
    assert_eq!(t.split(id, 0), Err(MediaError::SplitRejected));
    assert_eq!(t.split(id, 10_000), Err(MediaError::SplitRejected));
    assert_eq!(t.split(id, 11_000), Err(MediaError::SplitRejected));
    assert_eq!(t.split(99, 5_000), Err(MediaError::SplitRejected));
    // A rejected split is a no-op.
    assert_eq!(t.clips.len(), 1);
    assert_eq!(t.clips[0].end_ms, 10_000);
    assert_eq!(t.next_id, 1);
}

#[test]
fn resolve_gap_returns_none() {
    let mut t = Timeline::new();
    t.load(source_10s());
    // Past the end of every clip.
    assert_eq!(t.resolve(10_000), None);
    assert_eq!(t.resolve(u64::MAX), None);
    // An empty timeline is all gap.
    let empty = Timeline::new();
    assert_eq!(empty.resolve(0), None);
}

#[test]
fn delete_then_resolve_returns_none() {
    let mut t = Timeline::new();
    let id = t.load(source_10s());
    assert_eq!(t.resolve(5_000), Some((id, 5_000)));
    t.delete(id);
    assert_eq!(t.clips.len(), 0);
    assert_eq!(t.resolve(5_000), None);
    // Deleting an unknown id is a no-op.
    t.delete(id);
    assert_eq!(t.clips.len(), 0);
}

#[test]
fn overlapping_clips_smallest_id_wins() {
    let mut t = Timeline::new();
    let first = t.load(source_10s());
    let second = t.load(source_10s());
    assert_eq!(first, 0);
    assert_eq!(second, 1);
    // Both clips sit at position 0 and cover the same instant.
    assert_eq!(t.resolve(1_000), Some((0, 1_000)));
    // Once the earlier-created clip is gone, the later one wins.
    t.delete(first);
    assert_eq!(t.resolve(1_000), Some((1, 1_000)));
}

#[test]
fn load_split_delete_scenario() {
    // Load a 10 s, 30 fps, 1920x1080 source with audio: one clip [0,10s)
    // at position 0. Split at 4 s: [0,4s)@0 and [4s,10s)@4s. Delete the
    // first: 2 s is a gap, 5 s resolves into the second clip at source
    // time 5 s.
    let mut t = Timeline::new();
    let clip = t.load(source_10s());
    assert!(t.split(clip, 4_000).is_ok());
    assert_eq!(t.clips.len(), 2);
    assert_eq!(t.clips[0].start_ms, 0);
    assert_eq!(t.clips[0].end_ms, 4_000);
    assert_eq!(t.clips[0].position_ms, 0);
    assert_eq!(t.clips[1].start_ms, 4_000);
    assert_eq!(t.clips[1].end_ms, 10_000);
    assert_eq!(t.clips[1].position_ms, 4_000);
    let second = t.clips[1].id;
    t.delete(clip);
    assert_eq!(t.resolve(2_000), None);
    assert_eq!(t.resolve(5_000), Some((second, 5_000)));
}

#[test]
fn timeline_end_is_last_covered_instant() {
    let mut t = Timeline::new();
    assert_eq!(t.timeline_end(), 0);
    let id = t.load(source_10s());
    assert_eq!(t.timeline_end(), 10_000);
    t.split(id, 4_000).unwrap();
    assert_eq!(t.timeline_end(), 10_000);
    t.delete(id + 1);
    assert_eq!(t.timeline_end(), 4_000);
}
