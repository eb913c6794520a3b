//! Non-destructive clip/timeline model.
//!
//! A [`Clip`] references a source's immutable properties and a trimmed
//! `[start_ms, end_ms)` range within that source, and sits at `position_ms`
//! on the global timeline. The [`Timeline`] maps a global playhead instant
//! to the clip that covers it and the corresponding source timestamp.
//! Overlapping clips are a valid editing state; lookup is made
//! deterministic by letting the clip with the smallest id win.

use vstd::prelude::*;

use crate::MediaError;

verus! {

/// Immutable properties of one opened media source: pixel dimensions,
/// frame rate, total duration and whether an audio track is present.
/// All times in this crate are in milliseconds.
#[derive(Clone, Copy, Debug, PartialEq, Eq, Structural)]
pub struct VideoInfo {
    pub width: u32,
    pub height: u32,
    /// Frames per second of the video stream.
    pub fps: u32,
    /// Total source duration in milliseconds.
    pub duration_ms: u64,
    pub has_audio: bool,
}

/// One timeline entity: a trimmed sub-range of a source placed on the
/// global timeline.
#[derive(Clone, Copy, Debug, PartialEq, Eq, Structural)]
pub struct Clip {
    /// Unique identifier; smaller ids were created earlier.
    pub id: u64,
    /// Properties of the referenced source.
    pub source: VideoInfo,
    /// Trim-in point within the source, inclusive.
    pub start_ms: u64,
    /// Trim-out point within the source, exclusive.
    pub end_ms: u64,
    /// Offset of the clip on the global timeline.
    pub position_ms: u64,
}

impl Clip {
    /// Length of the trimmed range.
    pub open spec fn len_ms(self) -> int {
        self.end_ms - self.start_ms
    }

    /// One past the last global instant the clip covers.
    pub open spec fn global_end(self) -> int {
        self.position_ms + self.len_ms()
    }

    /// A clip is well formed when its trimmed range is non-empty, lies
    /// within the source's duration, and its global extent fits in `u64`.
    pub open spec fn wf(self) -> bool {
        &&& self.start_ms < self.end_ms
        &&& self.end_ms <= self.source.duration_ms
        &&& self.global_end() <= u64::MAX
    }

    /// Does the global instant `g` fall inside `[position, position + len)`?
    pub open spec fn covers(self, g: u64) -> bool {
        self.position_ms <= g && g - self.position_ms < self.len_ms()
    }

    /// The source timestamp a covered global instant maps to.
    pub open spec fn source_time(self, g: u64) -> int {
        self.start_ms + (g - self.position_ms)
    }
}

/// The ordered collection of clips plus the id counter for new clips.
pub struct Timeline {
    pub clips: Vec<Clip>,
    /// Next id to hand out; every existing clip's id is below it.
    pub next_id: u64,
}

/// The front half of a split: the original clip with its trim-out pulled
/// back to the cut.
pub open spec fn first_piece(c: Clip, at_ms: u64) -> Clip {
    Clip { end_ms: at_ms, ..c }
}

/// The back half of a split: a fresh clip from the cut to the original
/// trim-out, placed so that the two halves stay contiguous on the
/// global timeline.
pub open spec fn second_piece(c: Clip, at_ms: u64, id: u64) -> Clip {
    Clip {
        id,
        source: c.source,
        start_ms: at_ms,
        end_ms: c.end_ms,
        position_ms: (c.position_ms + (at_ms - c.start_ms)) as u64,
    }
}

/// The initial clip created on load: the whole source at position 0.
pub open spec fn initial_clip(media: VideoInfo, id: u64) -> Clip {
    Clip { id, source: media, start_ms: 0, end_ms: media.duration_ms, position_ms: 0 }
}

/// No clip covers the global instant `g`.
pub open spec fn gap_at(clips: Seq<Clip>, g: u64) -> bool {
    forall|i: int| 0 <= i < clips.len() ==> !(#[trigger] clips[i].covers(g))
}

/// `clips[i]` covers `g` and no covering clip has a smaller id: the
/// deterministic winner when clips overlap.
pub open spec fn covering_min(clips: Seq<Clip>, g: u64, i: int) -> bool {
    &&& 0 <= i < clips.len()
    &&& clips[i].covers(g)
    &&& forall|j: int|
        0 <= j < clips.len() && (#[trigger] clips[j].covers(g)) ==> clips[i].id <= clips[j].id
}

/// What resolving `g` yields: the smallest-id covering clip and the source
/// timestamp inside it, or nothing on a gap.
pub open spec fn resolve_spec(clips: Seq<Clip>, g: u64) -> Option<(u64, u64)> {
    if exists|i: int| covering_min(clips, g, i) {
        let i = choose|i: int| covering_min(clips, g, i);
        Some((clips[i].id, clips[i].source_time(g) as u64))
    } else {
        None
    }
}

impl Timeline {
    /// Every clip is well formed, every id is below `next_id`, and ids
    /// are pairwise distinct.
    pub open spec fn wf(self) -> bool {
        &&& forall|i: int| 0 <= i < self.clips@.len() ==> (#[trigger] self.clips@[i]).wf()
        &&& forall|i: int| 0 <= i < self.clips@.len() ==> (#[trigger] self.clips@[i]).id < self.next_id
        &&& forall|i: int, j: int|
            0 <= i < self.clips@.len() && 0 <= j < self.clips@.len() && i != j
                ==> (#[trigger] self.clips@[i]).id != (#[trigger] self.clips@[j]).id
    }

    /// Is there a clip with this id whose open trimmed interval contains
    /// `at_ms`? Exactly then does `split` succeed.
    pub open spec fn can_split(self, clip_id: u64, at_ms: u64) -> bool {
        exists|i: int|
            0 <= i < self.clips@.len() && (#[trigger] self.clips@[i]).id == clip_id
                && self.clips@[i].start_ms < at_ms < self.clips@[i].end_ms
    }

    /// An empty timeline.
    pub fn new() -> (t: Timeline)
        ensures
            t.wf(),
            t.clips@ =~= Seq::<Clip>::empty(),
            t.next_id == 0,
    {
        Timeline { clips: Vec::new(), next_id: 0 }
    }

    /// Creates one clip spanning the whole source at position 0 and
    /// returns its id.
    pub fn load(&mut self, media: VideoInfo) -> (clip_id: u64)
        requires
            old(self).wf(),
            old(self).next_id < u64::MAX,
            media.duration_ms > 0,
        ensures
            final(self).wf(),
            clip_id == old(self).next_id,
            final(self).next_id == old(self).next_id + 1,
            final(self).clips@ == old(self).clips@.push(initial_clip(media, clip_id)),
    {
        let clip = Clip {
            id: self.next_id,
            source: media,
            start_ms: 0,
            end_ms: media.duration_ms,
            position_ms: 0,
        };
        let clip_id = self.next_id;
        self.clips.push(clip);
        self.next_id = self.next_id + 1;
        clip_id
    }

    /// Cuts the clip `clip_id` in two at source time `at_ms`. The original
    /// clip keeps its id and its trim-out shrinks to the cut; a fresh clip
    /// covering the rest is inserted immediately after it, placed so that
    /// the two halves stay contiguous on the global timeline. Rejected as
    /// a no-op when no clip has that id or the cut lies outside the open
    /// interval `(start_ms, end_ms)`.
    pub fn split(&mut self, clip_id: u64, at_ms: u64) -> (r: Result<(), MediaError>)
        requires
            old(self).wf(),
            old(self).next_id < u64::MAX,
        ensures
            final(self).wf(),
            r is Ok <==> old(self).can_split(clip_id, at_ms),
            r matches Err(e) ==> e == MediaError::SplitRejected && *final(self) == *old(self),
            r is Ok ==> final(self).next_id == old(self).next_id + 1,
            r is Ok ==> forall|i: int|
                0 <= i < old(self).clips@.len() && (#[trigger] old(self).clips@[i]).id == clip_id
                    ==> final(self).clips@ == old(self).clips@.update(
                        i,
                        first_piece(old(self).clips@[i], at_ms),
                    ).insert(i + 1, second_piece(old(self).clips@[i], at_ms, old(self).next_id)),
    {
        let ghost pre = *self;
        let n = self.clips.len();
        let mut k: usize = 0;
        while k < n
            invariant
                *self == pre,
                pre == *old(self),
                pre.wf(),
                pre.next_id < u64::MAX,
                n == pre.clips@.len(),
                k <= n,
                forall|i: int| 0 <= i < k ==> (#[trigger] pre.clips@[i]).id != clip_id,
            decreases n - k,
        {
            if self.clips[k].id == clip_id {
                let c = self.clips[k];
                if c.start_ms < at_ms && at_ms < c.end_ms {
                    let front = Clip { end_ms: at_ms, ..c };
                    let back = Clip {
                        id: self.next_id,
                        source: c.source,
                        start_ms: at_ms,
                        end_ms: c.end_ms,
                        position_ms: c.position_ms + (at_ms - c.start_ms),
                    };
                    self.clips.set(k, front);
                    self.clips.insert(k + 1, back);
                    self.next_id = self.next_id + 1;
                    proof {
                        assert(front == first_piece(pre.clips@[k as int], at_ms));
                        assert(back == second_piece(pre.clips@[k as int], at_ms, pre.next_id));
                        assert(pre.can_split(clip_id, at_ms));
                        lemma_split_wf(pre, k as int, at_ms, *self);
                        assert forall|i: int|
                            0 <= i < pre.clips@.len() && (#[trigger] pre.clips@[i]).id == clip_id
                                implies self.clips@ == pre.clips@.update(
                                    i,
                                    first_piece(pre.clips@[i], at_ms),
                                ).insert(i + 1, second_piece(pre.clips@[i], at_ms, pre.next_id))
                        by {
                            assert(i == k as int);
                        }
                    }
                    return Ok(());
                } else {
                    proof {
                        assert forall|i: int|
                            0 <= i < pre.clips@.len() && (#[trigger] pre.clips@[i]).id == clip_id
                                && pre.clips@[i].start_ms < at_ms < pre.clips@[i].end_ms
                                implies false
                        by {
                            assert(i == k as int);
                        }
                    }
                    return Err(MediaError::SplitRejected);
                }
            }
            k = k + 1;
        }
        Err(MediaError::SplitRejected)
    }

    /// Removes the clip with this id, if any. Later clips keep their
    /// positions: gaps are a valid timeline state, not an error. Unknown
    /// ids are a silent no-op, as in an idempotent delete.
    pub fn delete(&mut self, clip_id: u64)
        requires
            old(self).wf(),
        ensures
            final(self).wf(),
            final(self).next_id == old(self).next_id,
            (forall|i: int|
                0 <= i < old(self).clips@.len() ==> (#[trigger] old(self).clips@[i]).id != clip_id)
                ==> final(self).clips@ == old(self).clips@,
            forall|i: int|
                0 <= i < old(self).clips@.len() && (#[trigger] old(self).clips@[i]).id == clip_id
                    ==> final(self).clips@ == old(self).clips@.remove(i),
    {
        let ghost pre = *self;
        let n = self.clips.len();
        let mut k: usize = 0;
        while k < n
            invariant
                *self == pre,
                pre == *old(self),
                pre.wf(),
                n == pre.clips@.len(),
                k <= n,
                forall|i: int| 0 <= i < k ==> (#[trigger] pre.clips@[i]).id != clip_id,
            decreases n - k,
        {
            if self.clips[k].id == clip_id {
                self.clips.remove(k);
                proof {
                    assert forall|i: int|
                        0 <= i < pre.clips@.len() && (#[trigger] pre.clips@[i]).id == clip_id
                            implies self.clips@ == pre.clips@.remove(i)
                    by {
                        assert(i == k as int);
                    }
                    assert forall|i: int| 0 <= i < self.clips@.len()
                        implies (#[trigger] self.clips@[i]).wf() && self.clips@[i].id
                            < self.next_id by {
                        if i < k as int {
                            assert(self.clips@[i] == pre.clips@[i]);
                        } else {
                            assert(self.clips@[i] == pre.clips@[i + 1]);
                        }
                    }
                    assert forall|i: int, j: int|
                        0 <= i < self.clips@.len() && 0 <= j < self.clips@.len() && i != j
                            implies (#[trigger] self.clips@[i]).id
                                != (#[trigger] self.clips@[j]).id by {
                        let oi: int = if i < k as int { i } else { i + 1 };
                        let oj: int = if j < k as int { j } else { j + 1 };
                        assert(self.clips@[i] == pre.clips@[oi]);
                        assert(self.clips@[j] == pre.clips@[oj]);
                    }
                }
                return;
            }
            k = k + 1;
        }
    }

    /// Finds the clip covering the global instant `global_ms` and the
    /// source timestamp it maps to, `clip.start + (global - clip.position)`.
    /// When several clips overlap at that instant the one with the
    /// smallest id wins; on a gap, or past every clip, the result is
    /// `None`.
    pub fn resolve(&self, global_ms: u64) -> (r: Option<(u64, u64)>)
        requires
            self.wf(),
        ensures
            r == resolve_spec(self.clips@, global_ms),
            r is None <==> gap_at(self.clips@, global_ms),
            r matches Some((id, st)) ==> exists|i: int|
                covering_min(self.clips@, global_ms, i) && (#[trigger] self.clips@[i]).id == id
                    && st == self.clips@[i].source_time(global_ms),
    {
        let n = self.clips.len();
        let mut k: usize = 0;
        let mut best: Option<(u64, u64)> = None;
        let ghost mut best_idx: int = 0;
        while k < n
            invariant
                self.wf(),
                n == self.clips@.len(),
                k <= n,
                best is None ==> forall|i: int|
                    0 <= i < k ==> !(#[trigger] self.clips@[i]).covers(global_ms),
                best matches Some((id, st)) ==> {
                    &&& 0 <= best_idx < k
                    &&& self.clips@[best_idx].covers(global_ms)
                    &&& id == self.clips@[best_idx].id
                    &&& st == self.clips@[best_idx].source_time(global_ms)
                    &&& forall|j: int|
                        0 <= j < k && (#[trigger] self.clips@[j]).covers(global_ms)
                            ==> id <= self.clips@[j].id
                },
            decreases n - k,
        {
            let c = self.clips[k];
            if c.position_ms <= global_ms && global_ms - c.position_ms < c.end_ms - c.start_ms {
                let st = c.start_ms + (global_ms - c.position_ms);
                match best {
                    None => {
                        best = Some((c.id, st));
                        proof {
                            best_idx = k as int;
                        }
                    },
                    Some((bid, _)) => {
                        if c.id < bid {
                            best = Some((c.id, st));
                            proof {
                                best_idx = k as int;
                            }
                        }
                    },
                }
            }
            k = k + 1;
        }
        proof {
            match best {
                None => {
                    assert(gap_at(self.clips@, global_ms));
                    assert forall|i: int| !covering_min(self.clips@, global_ms, i) by {}
                },
                Some((id, st)) => {
                    assert(covering_min(self.clips@, global_ms, best_idx));
                    let ch = choose|i: int| covering_min(self.clips@, global_ms, i);
                    assert(self.clips@[ch].id <= self.clips@[best_idx].id);
                    assert(self.clips@[best_idx].id <= self.clips@[ch].id);
                    assert(ch == best_idx);
                },
            }
        }
        best
    }

    /// One past the last global instant any clip covers: where playback
    /// naturally ends.
    pub fn timeline_end(&self) -> (r: u64)
        requires
            self.wf(),
        ensures
            r == timeline_end_of(self.clips@),
    {
        let n = self.clips.len();
        let mut end: u64 = 0;
        let mut k: usize = 0;
        while k < n
            invariant
                self.wf(),
                n == self.clips@.len(),
                k <= n,
                end == timeline_end_of(self.clips@.take(k as int)),
            decreases n - k,
        {
            let c = self.clips[k];
            let e = c.position_ms + (c.end_ms - c.start_ms);
            proof {
                assert(self.clips@.take(k + 1).drop_last() =~= self.clips@.take(k as int));
                assert(self.clips@.take(k + 1).last() == self.clips@[k as int]);
            }
            if e > end {
                end = e;
            }
            k = k + 1;
        }
        proof {
            assert(self.clips@.take(n as int) =~= self.clips@);
        }
        end
    }
}

/// One past the last global instant any clip covers; 0 for an empty
/// timeline.
pub open spec fn timeline_end_of(clips: Seq<Clip>) -> int
    decreases clips.len(),
{
    if clips.len() == 0 {
        0
    } else {
        let rest = timeline_end_of(clips.drop_last());
        let e = clips.last().global_end();
        if e > rest {
            e
        } else {
            rest
        }
    }
}

/// With every clip well formed, the timeline end is a valid `u64`.
pub proof fn lemma_timeline_end_bounds(clips: Seq<Clip>)
    requires
        forall|i: int| 0 <= i < clips.len() ==> (#[trigger] clips[i]).wf(),
    ensures
        0 <= timeline_end_of(clips) <= u64::MAX,
    decreases clips.len(),
{
    if clips.len() > 0 {
        lemma_timeline_end_bounds(clips.drop_last());
    }
}

/// After a valid split of the clip at index `i` at source time `at_ms`,
/// exactly two clips replace it: their trimmed ranges partition the
/// original `[start, end)` at the cut, every other clip is unchanged, and
/// the cut instant on the global timeline resolves to the new clip with
/// source time `at_ms` — provided no other clip overlaps that instant
/// (an overlapping earlier clip would win the smallest-id tie-break).
pub proof fn lemma_split_partitions_and_resolves(
    pre: Timeline,
    post: Timeline,
    i: int,
    at_ms: u64,
    g: u64,
)
    requires
        pre.wf(),
        pre.next_id < u64::MAX,
        0 <= i < pre.clips@.len(),
        pre.clips@[i].start_ms < at_ms < pre.clips@[i].end_ms,
        post.next_id == pre.next_id + 1,
        post.clips@ == pre.clips@.update(i, first_piece(pre.clips@[i], at_ms)).insert(
            i + 1,
            second_piece(pre.clips@[i], at_ms, pre.next_id),
        ),
        g == pre.clips@[i].position_ms + (at_ms - pre.clips@[i].start_ms),
        forall|j: int|
            0 <= j < pre.clips@.len() && j != i ==> !(#[trigger] pre.clips@[j]).covers(g),
    ensures
        post.clips@.len() == pre.clips@.len() + 1,
        post.clips@[i].id == pre.clips@[i].id,
        post.clips@[i].start_ms == pre.clips@[i].start_ms,
        post.clips@[i].end_ms == at_ms,
        post.clips@[i + 1].id == pre.next_id,
        post.clips@[i + 1].start_ms == at_ms,
        post.clips@[i + 1].end_ms == pre.clips@[i].end_ms,
        forall|j: int| 0 <= j < i ==> post.clips@[j] == pre.clips@[j],
        forall|j: int|
            i + 1 < j < post.clips@.len() ==> post.clips@[j] == pre.clips@[j - 1],
        resolve_spec(post.clips@, g) == Some((pre.next_id, at_ms)),
{
    let c = pre.clips@[i];
    let second = post.clips@[i + 1];
    let updated = pre.clips@.update(i, first_piece(c, at_ms));
    assert(second == second_piece(c, at_ms, pre.next_id));
    assert(second.position_ms == g);
    assert(second.covers(g));
    assert(!first_piece(c, at_ms).covers(g));
    assert forall|j: int| 0 <= j < post.clips@.len() && j != i + 1
        implies !(#[trigger] post.clips@[j]).covers(g) by {
        if j < i + 1 {
            assert(post.clips@[j] == updated[j]);
        } else {
            assert(post.clips@[j] == updated[j - 1]);
        }
    }
    assert(covering_min(post.clips@, g, i + 1));
    let ch = choose|m: int| covering_min(post.clips@, g, m);
    assert(ch == i + 1);
    assert(second.source_time(g) == at_ms);
}

/// Deleting the clip at index `i` turns every global instant that only it
/// covered into a gap: resolving there afterwards yields `None`.
pub proof fn lemma_delete_leaves_gap(clips: Seq<Clip>, i: int, g: u64)
    requires
        0 <= i < clips.len(),
        clips[i].covers(g),
        forall|j: int| 0 <= j < clips.len() && j != i ==> !(#[trigger] clips[j]).covers(g),
    ensures
        gap_at(clips.remove(i), g),
        resolve_spec(clips.remove(i), g) is None,
{
    let removed = clips.remove(i);
    assert forall|m: int| 0 <= m < removed.len()
        implies !(#[trigger] removed[m]).covers(g) by {
        if m < i {
            assert(removed[m] == clips[m]);
        } else {
            assert(removed[m] == clips[m + 1]);
        }
    }
    assert forall|m: int| !covering_min(removed, g, m) by {}
}

/// A successful split preserves timeline well-formedness: both pieces are
/// well formed and the fresh id stays unique and below the new counter.
proof fn lemma_split_wf(pre: Timeline, k: int, at_ms: u64, post: Timeline)
    requires
        pre.wf(),
        pre.next_id < u64::MAX,
        0 <= k < pre.clips@.len(),
        pre.clips@[k].start_ms < at_ms < pre.clips@[k].end_ms,
        post.next_id == pre.next_id + 1,
        post.clips@ == pre.clips@.update(k, first_piece(pre.clips@[k], at_ms)).insert(
            k + 1,
            second_piece(pre.clips@[k], at_ms, pre.next_id),
        ),
    ensures
        post.wf(),
{
    let c = pre.clips@[k];
    let updated = pre.clips@.update(k, first_piece(c, at_ms));
    assert(first_piece(c, at_ms).wf());
    assert(second_piece(c, at_ms, pre.next_id).wf());
    assert forall|i: int| 0 <= i < post.clips@.len() implies (#[trigger] post.clips@[i]).wf() by {
        if i < k + 1 {
            assert(post.clips@[i] == updated[i]);
        } else if i > k + 1 {
            assert(post.clips@[i] == updated[i - 1]);
        }
    }
    assert forall|i: int| 0 <= i < post.clips@.len()
        implies (#[trigger] post.clips@[i]).id < post.next_id by {
        if i < k + 1 {
            assert(post.clips@[i] == updated[i]);
        } else if i > k + 1 {
            assert(post.clips@[i] == updated[i - 1]);
        }
    }
    assert forall|i: int, j: int|
        0 <= i < post.clips@.len() && 0 <= j < post.clips@.len() && i != j
            implies (#[trigger] post.clips@[i]).id != (#[trigger] post.clips@[j]).id by {
        let oi: int = if i < k + 1 { i } else { i - 1 };
        let oj: int = if j < k + 1 { j } else { j - 1 };
        if i == k + 1 {
            assert(post.clips@[i].id == pre.next_id);
            assert(post.clips@[j] == updated[oj]);
        } else if j == k + 1 {
            assert(post.clips@[j].id == pre.next_id);
            assert(post.clips@[i] == updated[oi]);
        } else {
            assert(post.clips@[i] == updated[oi]);
            assert(post.clips@[j] == updated[oj]);
        }
    }
}

} // verus!
