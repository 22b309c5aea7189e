//! Clip editing on the arrangement timeline, in ticks: dropping samples,
//! selecting, copy / cut / paste / duplicate / delete, trimming either
//! edge, moving and slicing. Pixel positions are turned into ticks by the
//! caller; snapping to the grid happens here.
use vstd::prelude::*;
use crate::playlist::{spec_snap, snap_ticks};
use crate::transport::sat_sub;

verus! {

/// Where an audio clip reads its sample: the ticks skipped at the sample's
/// start, and the sample's whole length in ticks.
#[derive(Clone, Copy, Debug, PartialEq, Eq, Structural)]
pub struct AudioSpan {
    pub sample_offset_ticks: u64,
    pub total_sample_ticks: u64,
}

/// A clip on a track of the timeline. `audio` is set for audio clips;
/// `data` carries the rest (name, source, waveform, colour, or the
/// pattern / automation payload).
pub struct TimelineClip<D> {
    pub id: usize,
    pub track: usize,
    pub start_tick: u64,
    pub duration_ticks: u64,
    pub audio: Option<AudioSpan>,
    pub data: D,
}

/// `b` is a copy of `a`: same fields, cloned data.
pub open spec fn clip_copied<D: Clone>(a: TimelineClip<D>, b: TimelineClip<D>) -> bool {
    &&& b.id == a.id
    &&& b.track == a.track
    &&& b.start_tick == a.start_tick
    &&& b.duration_ticks == a.duration_ticks
    &&& b.audio == a.audio
    &&& vstd::pervasive::cloned(a.data, b.data)
}

/// `b` is a copy of `a` under a new id and start.
pub open spec fn clip_placed<D: Clone>(a: TimelineClip<D>, b: TimelineClip<D>, id: usize, start: u64) -> bool {
    &&& b.id == id
    &&& b.track == a.track
    &&& b.start_tick == start
    &&& b.duration_ticks == a.duration_ticks
    &&& b.audio == a.audio
    &&& vstd::pervasive::cloned(a.data, b.data)
}

impl<D: Clone> Clone for TimelineClip<D> {
    fn clone(&self) -> (c: Self)
        ensures
            clip_copied(*self, c),
    {
        TimelineClip {
            id: self.id,
            track: self.track,
            start_tick: self.start_tick,
            duration_ticks: self.duration_ticks,
            audio: self.audio,
            data: self.data.clone(),
        }
    }
}

impl<D> TimelineClip<D> {
    pub open spec fn end_tick(self) -> int {
        self.start_tick + self.duration_ticks
    }
}

/// The clips of a timeline, the selection (clip ids), the clipboard, the
/// next clip id and the playhead.
pub struct Timeline<D> {
    pub clips: Vec<TimelineClip<D>>,
    pub selected_clips: Vec<usize>,
    pub clipboard: Vec<TimelineClip<D>>,
    pub next_clip_id: usize,
    pub playhead_tick: u64,
}

/// Every clip of `s` has an id below `next`.
pub open spec fn ids_below<D>(s: Seq<TimelineClip<D>>, next: usize) -> bool {
    forall|i: int| 0 <= i < s.len() ==> #[trigger] s[i].id < next
}

/// Keeping some of the clips keeps their ids below `next`.
proof fn lemma_filter_ids_below<D>(s: Seq<TimelineClip<D>>, pred: spec_fn(TimelineClip<D>) -> bool, next: usize)
    requires
        ids_below(s, next),
    ensures
        ids_below(s.filter(pred), next),
{
    assert forall|i: int| 0 <= i < s.filter(pred).len() implies #[trigger] s.filter(pred)[i].id < next by {
        assert(s.filter(pred).contains(s.filter(pred)[i]));
        s.lemma_filter_contains_rev(pred, s.filter(pred)[i]);
        let j = choose|j: int| 0 <= j < s.len() && s[j] == s.filter(pred)[i];
        assert(s[j].id < next);
    }
}

impl<D> Timeline<D> {
    /// Clip ids are fresh: all below the next id.
    pub open spec fn wf(self) -> bool {
        ids_below(self.clips@, self.next_clip_id)
    }

    pub open spec fn is_selected_id(self, id: usize) -> bool {
        self.selected_clips@.contains(id)
    }

    pub open spec fn selected_pred(self) -> spec_fn(TimelineClip<D>) -> bool {
        |c: TimelineClip<D>| self.selected_clips@.contains(c.id)
    }

    pub open spec fn unselected_pred(self) -> spec_fn(TimelineClip<D>) -> bool {
        |c: TimelineClip<D>| !self.selected_clips@.contains(c.id)
    }

    /// An empty timeline: no clips, nothing selected, ids from 1, playhead 0.
    pub fn new() -> (t: Timeline<D>)
        ensures
            t.wf(),
            t.clips@.len() == 0,
            t.selected_clips@.len() == 0,
            t.clipboard@.len() == 0,
            t.next_clip_id == 1,
            t.playhead_tick == 0,
    {
        Timeline { clips: Vec::new(), selected_clips: Vec::new(), clipboard: Vec::new(), next_clip_id: 1, playhead_tick: 0 }
    }

    /// The (start, duration) spans of the clips, in order, for the project
    /// length.
    pub fn spans(&self) -> (spans: Vec<(u64, u64)>)
        ensures
            spans@ == self.clips@.map_values(|c: TimelineClip<D>| (c.start_tick, c.duration_ticks)),
    {
        let mut out: Vec<(u64, u64)> = Vec::new();
        let mut i: usize = 0;
        while i < self.clips.len()
            invariant
                i <= self.clips@.len(),
                out@ == self.clips@.take(i as int).map_values(|c: TimelineClip<D>| (c.start_tick, c.duration_ticks)),
            decreases self.clips@.len() - i,
        {
            out.push((self.clips[i].start_tick, self.clips[i].duration_ticks));
            assert(self.clips@.take(i + 1).map_values(|c: TimelineClip<D>| (c.start_tick, c.duration_ticks))
                =~= self.clips@.take(i as int).map_values(|c: TimelineClip<D>| (c.start_tick, c.duration_ticks))
                    .push((self.clips@[i as int].start_tick, self.clips@[i as int].duration_ticks)));
            i += 1;
        }
        assert(self.clips@.take(self.clips@.len() as int) =~= self.clips@);
        out
    }

    /// Whether a clip id is selected.
    pub fn is_selected(&self, id: usize) -> (b: bool)
        ensures
            b == self.is_selected_id(id),
    {
        let mut i: usize = 0;
        while i < self.selected_clips.len()
            invariant
                i <= self.selected_clips@.len(),
                forall|j: int| 0 <= j < i ==> self.selected_clips@[j] != id,
            decreases self.selected_clips@.len() - i,
        {
            if self.selected_clips[i] == id {
                return true;
            }
            i += 1;
        }
        false
    }

    /// Drops a sample of `duration_ticks` on a track at the pointer
    /// (snapped to the grid): a new audio clip reading the sample from its
    /// start. Returns the new clip's id.
    pub fn drop_audio_clip(&mut self, track: usize, pointer_tick: u64, grid_ticks: u64, duration_ticks: u64, data: D)
        -> (id: usize)
        requires
            old(self).wf(),
            old(self).next_clip_id < usize::MAX,
        ensures
            final(self).wf(),
            id == old(self).next_clip_id,
            final(self).next_clip_id == old(self).next_clip_id + 1,
            final(self).clips@ == old(self).clips@.push(TimelineClip {
                id,
                track,
                start_tick: spec_snap(pointer_tick, grid_ticks),
                duration_ticks,
                audio: Some(AudioSpan { sample_offset_ticks: 0, total_sample_ticks: duration_ticks }),
                data,
            }),
            final(self).selected_clips == old(self).selected_clips,
            final(self).clipboard == old(self).clipboard,
            final(self).playhead_tick == old(self).playhead_tick,
    {
        let start = snap_ticks(pointer_tick, grid_ticks);
        let id = self.next_clip_id;
        self.next_clip_id = self.next_clip_id + 1;
        self.clips.push(TimelineClip {
            id,
            track,
            start_tick: start,
            duration_ticks,
            audio: Some(AudioSpan { sample_offset_ticks: 0, total_sample_ticks: duration_ticks }),
            data,
        });
        id
    }

    /// A click on a clip: with Shift it toggles the clip in the selection,
    /// otherwise the clip alone is selected.
    pub fn click_clip(&mut self, id: usize, shift: bool)
        ensures
            final(self).clips == old(self).clips,
            final(self).clipboard == old(self).clipboard,
            final(self).next_clip_id == old(self).next_clip_id,
            final(self).playhead_tick == old(self).playhead_tick,
            final(self).selected_clips@ == (if !shift {
                seq![id]
            } else if old(self).selected_clips@.contains(id) {
                old(self).selected_clips@.filter(|x: usize| x != id)
            } else {
                old(self).selected_clips@.push(id)
            }),
    {
        if !shift {
            self.selected_clips = vec![id];
            assert(self.selected_clips@ =~= seq![id]);
            return;
        }
        if self.is_selected(id) {
            let ghost old_sel = self.selected_clips@;
            let ghost pred = |x: usize| x != id;
            let ghost mut k: int = 0;
            let mut i: usize = 0;
            assert(old_sel.take(0).filter(pred) =~= Seq::<usize>::empty()) by {
                reveal(Seq::filter);
            }
            while i < self.selected_clips.len()
                invariant
                    0 <= k <= old_sel.len(),
                    i <= self.selected_clips@.len(),
                    pred == (|x: usize| x != id),
                    old_sel.take(k).filter(pred).len() == i,
                    self.selected_clips@ == old_sel.take(k).filter(pred) + old_sel.skip(k),
                    self.clips == old(self).clips,
                    self.clipboard == old(self).clipboard,
                    self.next_clip_id == old(self).next_clip_id,
                    self.playhead_tick == old(self).playhead_tick,
                decreases self.selected_clips@.len() - i,
            {
                proof {
                    assert(old_sel.take(k + 1) =~= old_sel.take(k).push(old_sel[k]));
                    old_sel.take(k).lemma_filter_push(old_sel[k], pred);
                    assert(self.selected_clips@[i as int] == old_sel[k]);
                }
                if self.selected_clips[i] == id {
                    let _ = self.selected_clips.remove(i);
                    assert(self.selected_clips@ =~= old_sel.take(k + 1).filter(pred) + old_sel.skip(k + 1));
                } else {
                    i += 1;
                    assert(self.selected_clips@ =~= old_sel.take(k + 1).filter(pred) + old_sel.skip(k + 1));
                }
                proof { k = k + 1; }
            }
            assert(k == old_sel.len()) by {
                assert(old_sel.skip(k).len() == 0);
            }
            assert(old_sel.take(k) =~= old_sel);
            assert(self.selected_clips@ =~= old_sel.filter(pred));
        } else {
            self.selected_clips.push(id);
        }
    }

    /// Removes the clips matching `remove` (by id membership in the
    /// selection when `by_selection`, else the clip `id`), keeping order.
    fn retain_clips(&mut self, by_selection: bool, id: usize, Ghost(pred): Ghost<spec_fn(TimelineClip<D>) -> bool>)
        requires
            old(self).wf(),
            forall|c: TimelineClip<D>| #[trigger] pred(c)
                == (if by_selection { !old(self).selected_clips@.contains(c.id) } else { c.id != id }),
        ensures
            final(self).wf(),
            final(self).clips@ == old(self).clips@.filter(pred),
            final(self).selected_clips == old(self).selected_clips,
            final(self).clipboard == old(self).clipboard,
            final(self).next_clip_id == old(self).next_clip_id,
            final(self).playhead_tick == old(self).playhead_tick,
    {
        let ghost old_clips = self.clips@;
        let ghost sel = self.selected_clips@;
        let ghost mut k: int = 0;
        let mut i: usize = 0;
        assert(old_clips.take(0).filter(pred) =~= Seq::<TimelineClip<D>>::empty()) by {
            reveal(Seq::filter);
        }
        while i < self.clips.len()
            invariant
                0 <= k <= old_clips.len(),
                i <= self.clips@.len(),
                forall|c: TimelineClip<D>| #[trigger] pred(c)
                    == (if by_selection { !sel.contains(c.id) } else { c.id != id }),
                sel == self.selected_clips@,
                old_clips.take(k).filter(pred).len() == i,
                self.clips@ == old_clips.take(k).filter(pred) + old_clips.skip(k),
                self.selected_clips == old(self).selected_clips,
                self.clipboard == old(self).clipboard,
                self.next_clip_id == old(self).next_clip_id,
                self.playhead_tick == old(self).playhead_tick,
            decreases self.clips@.len() - i,
        {
            proof {
                assert(old_clips.take(k + 1) =~= old_clips.take(k).push(old_clips[k]));
                old_clips.take(k).lemma_filter_push(old_clips[k], pred);
                assert(self.clips@[i as int] == old_clips[k]);
            }
            let cid = self.clips[i].id;
            let drop = if by_selection { self.is_selected(cid) } else { cid == id };
            if drop {
                let _ = self.clips.remove(i);
                assert(self.clips@ =~= old_clips.take(k + 1).filter(pred) + old_clips.skip(k + 1));
            } else {
                i += 1;
                assert(self.clips@ =~= old_clips.take(k + 1).filter(pred) + old_clips.skip(k + 1));
            }
            proof { k = k + 1; }
        }
        assert(k == old_clips.len()) by {
            assert(old_clips.skip(k).len() == 0);
        }
        assert(old_clips.take(k) =~= old_clips);
        assert(self.clips@ =~= old_clips.filter(pred));
        proof { lemma_filter_ids_below(old_clips, pred, self.next_clip_id); }
    }

    /// Deletes the selected clips and clears the selection.
    pub fn delete_selection(&mut self)
        requires
            old(self).wf(),
        ensures
            final(self).wf(),
            final(self).clips@ == old(self).clips@.filter(old(self).unselected_pred()),
            final(self).selected_clips@.len() == 0,
            final(self).clipboard == old(self).clipboard,
            final(self).next_clip_id == old(self).next_clip_id,
            final(self).playhead_tick == old(self).playhead_tick,
    {
        self.retain_clips(true, 0, Ghost(old(self).unselected_pred()));
        self.selected_clips.clear();
    }

    /// Deletes one clip (right click).
    pub fn delete_clip(&mut self, id: usize)
        requires
            old(self).wf(),
        ensures
            final(self).wf(),
            final(self).clips@ == old(self).clips@.filter(|c: TimelineClip<D>| c.id != id),
            final(self).selected_clips == old(self).selected_clips,
            final(self).clipboard == old(self).clipboard,
            final(self).next_clip_id == old(self).next_clip_id,
            final(self).playhead_tick == old(self).playhead_tick,
    {
        self.retain_clips(false, id, Ghost(|c: TimelineClip<D>| c.id != id));
    }
}

impl<D: Clone> Timeline<D> {
    /// Copies the selected clips (in timeline order) to the clipboard.
    pub fn copy_selection(&mut self)
        ensures
            final(self).clips == old(self).clips,
            final(self).selected_clips == old(self).selected_clips,
            final(self).next_clip_id == old(self).next_clip_id,
            final(self).playhead_tick == old(self).playhead_tick,
            final(self).clipboard@.len() == old(self).clips@.filter(old(self).selected_pred()).len(),
            forall|k: int| 0 <= k < final(self).clipboard@.len() ==>
                clip_copied(#[trigger] old(self).clips@.filter(old(self).selected_pred())[k], final(self).clipboard@[k]),
    {
        self.clipboard = self.selected_copies();
    }

    /// Cuts the selected clips: copies them, deletes them and clears the
    /// selection.
    pub fn cut_selection(&mut self)
        requires
            old(self).wf(),
        ensures
            final(self).wf(),
            final(self).clips@ == old(self).clips@.filter(old(self).unselected_pred()),
            final(self).selected_clips@.len() == 0,
            final(self).next_clip_id == old(self).next_clip_id,
            final(self).playhead_tick == old(self).playhead_tick,
            final(self).clipboard@.len() == old(self).clips@.filter(old(self).selected_pred()).len(),
            forall|k: int| 0 <= k < final(self).clipboard@.len() ==>
                clip_copied(#[trigger] old(self).clips@.filter(old(self).selected_pred())[k], final(self).clipboard@[k]),
    {
        self.copy_selection();
        self.delete_selection();
    }
}

/// The earliest start among `s` (0 when empty).
pub open spec fn min_start<D>(s: Seq<TimelineClip<D>>) -> u64
    decreases s.len(),
{
    if s.len() == 0 {
        0
    } else if s.len() == 1 {
        s[0].start_tick
    } else {
        let m = min_start(s.drop_last());
        if s.last().start_tick < m { s.last().start_tick } else { m }
    }
}

/// The latest end among `s` (0 when empty).
pub open spec fn max_end<D>(s: Seq<TimelineClip<D>>) -> int
    decreases s.len(),
{
    if s.len() == 0 {
        0
    } else {
        let m = max_end(s.drop_last());
        if s.last().end_tick() > m { s.last().end_tick() } else { m }
    }
}

/// Where clipboard clip `k` lands when pasted at `playhead`.
pub open spec fn pasted_start<D>(cb: Seq<TimelineClip<D>>, playhead: u64, k: int) -> int {
    playhead + (cb[k].start_tick - min_start(cb))
}

/// Where the copy of selected clip `k` lands when the selection `sel` is
/// duplicated: moved by the span from its earliest start to its latest end.
pub open spec fn duplicated_start<D>(sel: Seq<TimelineClip<D>>, k: int) -> int {
    sel[k].start_tick + (max_end(sel) - min_start(sel))
}

/// No clip of `s` starts before `min_start(s)`, and one starts there.
pub proof fn lemma_min_start_bounds<D>(s: Seq<TimelineClip<D>>)
    requires
        s.len() > 0,
    ensures
        forall|k: int| 0 <= k < s.len() ==> min_start(s) <= #[trigger] s[k].start_tick,
        exists|k: int| 0 <= k < s.len() && min_start(s) == #[trigger] s[k].start_tick,
    decreases s.len(),
{
    if s.len() > 1 {
        lemma_min_start_bounds(s.drop_last());
        let k0 = choose|k: int| 0 <= k < s.drop_last().len() && min_start(s.drop_last()) == #[trigger] s.drop_last()[k].start_tick;
        assert(s[k0] == s.drop_last()[k0]);
        assert forall|k: int| 0 <= k < s.len() implies min_start(s) <= #[trigger] s[k].start_tick by {
            if k < s.len() - 1 {
                assert(s[k] == s.drop_last()[k]);
            }
        }
        if s.last().start_tick < min_start(s.drop_last()) {
            assert(min_start(s) == s[s.len() - 1].start_tick);
        } else {
            assert(min_start(s) == s[k0].start_tick);
        }
    } else {
        assert(min_start(s) == s[0].start_tick);
    }
}

/// No clip of `s` ends after `max_end(s)`.
pub proof fn lemma_max_end_bounds<D>(s: Seq<TimelineClip<D>>)
    ensures
        forall|k: int| 0 <= k < s.len() ==> (#[trigger] s[k]).end_tick() <= max_end(s),
        max_end(s) >= 0,
    decreases s.len(),
{
    if s.len() > 0 {
        lemma_max_end_bounds(s.drop_last());
        assert forall|k: int| 0 <= k < s.len() implies (#[trigger] s[k]).end_tick() <= max_end(s) by {
            if k < s.len() - 1 {
                assert(s[k] == s.drop_last()[k]);
            }
        }
    }
}

/// The earliest start of a clip list.
fn min_start_of<D>(s: &Vec<TimelineClip<D>>) -> (m: u64)
    ensures
        m == min_start(s@),
{
    if s.len() == 0 {
        return 0;
    }
    let mut m = s[0].start_tick;
    let mut i: usize = 1;
    assert(s@.take(1).len() == 1 && s@.take(1)[0] == s@[0]);
    while i < s.len()
        invariant
            1 <= i <= s@.len(),
            m == min_start(s@.take(i as int)),
        decreases s@.len() - i,
    {
        assert(s@.take(i + 1).drop_last() =~= s@.take(i as int));
        assert(s@.take(i + 1).last() == s@[i as int]);
        if s[i].start_tick < m {
            m = s[i].start_tick;
        }
        i += 1;
    }
    assert(s@.take(s@.len() as int) =~= s@);
    m
}

impl<D: Clone> Timeline<D> {
    /// Pastes the clipboard at the playhead: the copies keep their
    /// distances, the earliest one landing on the playhead; each gets a
    /// fresh id, and the copies become the selection. An empty clipboard
    /// changes nothing.
    pub fn paste(&mut self)
        requires
            old(self).wf(),
            old(self).next_clip_id + old(self).clipboard@.len() <= usize::MAX,
            forall|k: int| 0 <= k < old(self).clipboard@.len() ==>
                #[trigger] pasted_start(old(self).clipboard@, old(self).playhead_tick, k) <= u64::MAX,
        ensures
            final(self).wf(),
            final(self).clipboard == old(self).clipboard,
            final(self).playhead_tick == old(self).playhead_tick,
            old(self).clipboard@.len() == 0 ==> final(self).clips == old(self).clips
                && final(self).selected_clips == old(self).selected_clips
                && final(self).next_clip_id == old(self).next_clip_id,
            old(self).clipboard@.len() > 0 ==> {
                let n = old(self).clips@.len();
                let cb = old(self).clipboard@;
                &&& final(self).clips@.len() == n + cb.len()
                &&& final(self).clips@.take(n as int) == old(self).clips@
                &&& forall|k: int| 0 <= k < cb.len() ==> clip_placed(cb[k], #[trigger] final(self).clips@[n + k],
                    (old(self).next_clip_id + k) as usize, pasted_start(cb, old(self).playhead_tick, k) as u64)
                &&& final(self).selected_clips@ == Seq::new(cb.len(), |k: int| (old(self).next_clip_id + k) as usize)
                &&& final(self).next_clip_id == old(self).next_clip_id + cb.len()
            },
    {
        if self.clipboard.len() == 0 {
            return;
        }
        let ghost n = self.clips@.len();
        let ghost cb = self.clipboard@;
        let ghost next0 = self.next_clip_id;
        proof { lemma_min_start_bounds(cb); }
        let min = min_start_of(&self.clipboard);
        let mut new_sel: Vec<usize> = Vec::new();
        let mut k: usize = 0;
        while k < self.clipboard.len()
            invariant
                cb == self.clipboard@,
                self.clipboard == old(self).clipboard,
                cb.len() > 0,
                k <= cb.len(),
                min == min_start(cb),
                forall|j: int| 0 <= j < cb.len() ==> min <= #[trigger] cb[j].start_tick,
                forall|j: int| 0 <= j < cb.len() ==> #[trigger] pasted_start(cb, self.playhead_tick, j) <= u64::MAX,
                self.playhead_tick == old(self).playhead_tick,
                next0 == old(self).next_clip_id,
                next0 + cb.len() <= usize::MAX,
                self.next_clip_id == next0 + k,
                n == old(self).clips@.len(),
                self.clips@.len() == n + k,
                self.clips@.take(n as int) == old(self).clips@,
                ids_below(self.clips@, self.next_clip_id),
                forall|j: int| 0 <= j < k ==> clip_placed(cb[j], #[trigger] self.clips@[n + j],
                    (next0 + j) as usize, pasted_start(cb, self.playhead_tick, j) as u64),
                new_sel@ == Seq::new(k as nat, |j: int| (next0 + j) as usize),
            decreases cb.len() - k,
        {
            assert(pasted_start(cb, self.playhead_tick, k as int) <= u64::MAX);
            let offset = self.clipboard[k].start_tick - min;
            let mut nc = self.clipboard[k].clone();
            nc.id = self.next_clip_id;
            nc.start_tick = self.playhead_tick + offset;
            let ghost before = self.clips@;
            new_sel.push(nc.id);
            self.clips.push(nc);
            self.next_clip_id = self.next_clip_id + 1;
            assert(self.clips@.take(n as int) =~= before.take(n as int));
            assert forall|j: int| 0 <= j < self.clips@.len() implies #[trigger] self.clips@[j].id < self.next_clip_id by {
                if j < before.len() {
                    assert(self.clips@[j] == before[j]);
                }
            }
            assert forall|j: int| 0 <= j < k + 1 implies clip_placed(cb[j], #[trigger] self.clips@[n + j],
                (next0 + j) as usize, pasted_start(cb, self.playhead_tick, j) as u64) by {
                if j < k {
                    assert(self.clips@[n + j] == before[n + j]);
                }
            }
            assert(new_sel@ =~= Seq::new((k + 1) as nat, |j: int| (next0 + j) as usize));
            k += 1;
        }
        self.selected_clips = new_sel;
    }
}

/// Two clip lists with the same starts and durations, one by one.
pub open spec fn same_times<D>(a: Seq<TimelineClip<D>>, b: Seq<TimelineClip<D>>) -> bool {
    &&& a.len() == b.len()
    &&& forall|k: int| 0 <= k < a.len() ==> (#[trigger] a[k]).start_tick == b[k].start_tick
        && a[k].duration_ticks == b[k].duration_ticks
}

/// The earliest start and latest end depend on the starts and durations
/// alone.
proof fn lemma_same_times_bounds<D>(a: Seq<TimelineClip<D>>, b: Seq<TimelineClip<D>>)
    requires
        same_times(a, b),
    ensures
        min_start(a) == min_start(b),
        max_end(a) == max_end(b),
    decreases a.len(),
{
    if a.len() > 0 {
        assert(same_times(a.drop_last(), b.drop_last())) by {
            assert forall|k: int| 0 <= k < a.drop_last().len() implies (#[trigger] a.drop_last()[k]).start_tick
                == b.drop_last()[k].start_tick && a.drop_last()[k].duration_ticks == b.drop_last()[k].duration_ticks by {
                assert(a.drop_last()[k] == a[k] && b.drop_last()[k] == b[k]);
            }
        }
        lemma_same_times_bounds(a.drop_last(), b.drop_last());
        assert(a.last().start_tick == b.last().start_tick && a.last().duration_ticks == b.last().duration_ticks) by {
            assert(a.last() == a[a.len() - 1] && b.last() == b[b.len() - 1]);
        }
    }
}

/// The latest end of a clip list.
fn max_end_of<D>(s: &Vec<TimelineClip<D>>) -> (m: u64)
    requires
        forall|k: int| 0 <= k < s@.len() ==> (#[trigger] s@[k]).end_tick() <= u64::MAX,
    ensures
        m == max_end(s@),
{
    let mut m: u64 = 0;
    let mut i: usize = 0;
    assert(s@.take(0) =~= Seq::<TimelineClip<D>>::empty());
    while i < s.len()
        invariant
            i <= s@.len(),
            m == max_end(s@.take(i as int)),
            forall|k: int| 0 <= k < s@.len() ==> (#[trigger] s@[k]).end_tick() <= u64::MAX,
        decreases s@.len() - i,
    {
        assert(s@.take(i + 1).drop_last() =~= s@.take(i as int));
        assert(s@.take(i + 1).last() == s@[i as int]);
        assert(s@[i as int].end_tick() <= u64::MAX);
        let e = s[i].start_tick + s[i].duration_ticks;
        if e > m {
            m = e;
        }
        i += 1;
    }
    assert(s@.take(s@.len() as int) =~= s@);
    m
}

impl<D: Clone> Timeline<D> {
    /// Copies of the selected clips, in timeline order.
    fn selected_copies(&self) -> (out: Vec<TimelineClip<D>>)
        ensures
            out@.len() == self.clips@.filter(self.selected_pred()).len(),
            forall|k: int| 0 <= k < out@.len() ==>
                clip_copied(#[trigger] self.clips@.filter(self.selected_pred())[k], out@[k]),
    {
        let ghost s = self.clips@;
        let ghost pred = self.selected_pred();
        let mut out: Vec<TimelineClip<D>> = Vec::new();
        let mut i: usize = 0;
        assert(s.take(0).filter(pred) =~= Seq::<TimelineClip<D>>::empty()) by {
            reveal(Seq::filter);
        }
        while i < self.clips.len()
            invariant
                i <= s.len(),
                s == self.clips@,
                pred == self.selected_pred(),
                out@.len() == s.take(i as int).filter(pred).len(),
                forall|k: int| 0 <= k < out@.len() ==> clip_copied(#[trigger] s.take(i as int).filter(pred)[k], out@[k]),
            decreases s.len() - i,
        {
            proof {
                assert(s.take(i + 1) =~= s.take(i as int).push(s[i as int]));
                s.take(i as int).lemma_filter_push(s[i as int], pred);
            }
            if self.is_selected(self.clips[i].id) {
                let c = self.clips[i].clone();
                out.push(c);
            }
            i += 1;
        }
        assert(s.take(s.len() as int) =~= s);
        out
    }

    /// Duplicates the selected clips right after the selection: each copy
    /// moves by the span from the earliest start to the latest end of the
    /// selected clips, gets a fresh id, and the copies become the
    /// selection. Nothing happens without a selected clip.
    pub fn duplicate_selection(&mut self)
        requires
            old(self).wf(),
            old(self).next_clip_id + old(self).clips@.filter(old(self).selected_pred()).len() <= usize::MAX,
            forall|k: int| 0 <= k < old(self).clips@.filter(old(self).selected_pred()).len() ==>
                (#[trigger] old(self).clips@.filter(old(self).selected_pred())[k]).end_tick() <= u64::MAX,
            forall|k: int| 0 <= k < old(self).clips@.filter(old(self).selected_pred()).len() ==>
                #[trigger] duplicated_start(old(self).clips@.filter(old(self).selected_pred()), k) <= u64::MAX,
        ensures
            final(self).wf(),
            final(self).clipboard == old(self).clipboard,
            final(self).playhead_tick == old(self).playhead_tick,
            ({
                let sel = old(self).clips@.filter(old(self).selected_pred());
                let n = old(self).clips@.len();
                &&& sel.len() == 0 ==> final(self).clips == old(self).clips
                    && final(self).selected_clips == old(self).selected_clips
                    && final(self).next_clip_id == old(self).next_clip_id
                &&& sel.len() > 0 ==> {
                    &&& final(self).clips@.len() == n + sel.len()
                    &&& final(self).clips@.take(n as int) == old(self).clips@
                    &&& forall|k: int| 0 <= k < sel.len() ==> clip_placed(sel[k], #[trigger] final(self).clips@[n + k],
                        (old(self).next_clip_id + k) as usize, duplicated_start(sel, k) as u64)
                    &&& final(self).selected_clips@ == Seq::new(sel.len(), |k: int| (old(self).next_clip_id + k) as usize)
                    &&& final(self).next_clip_id == old(self).next_clip_id + sel.len()
                }
            }),
    {
        let ghost sel = self.clips@.filter(self.selected_pred());
        let mut items = self.selected_copies();
        if items.len() == 0 {
            return;
        }
        assert(same_times(sel, items@));
        proof {
            lemma_same_times_bounds(sel, items@);
            lemma_min_start_bounds(items@);
            lemma_max_end_bounds(items@);
        }
        assert forall|k: int| 0 <= k < items@.len() implies (#[trigger] items@[k]).end_tick() <= u64::MAX by {
            assert(clip_copied(sel[k], items@[k]));
            assert(sel[k].end_tick() <= u64::MAX);
        }
        let min = min_start_of(&items);
        let max = max_end_of(&items);
        let block = max - min;
        let ghost n = self.clips@.len();
        let ghost next0 = self.next_clip_id;
        let ghost copies = items@;
        let count = items.len();
        let mut new_sel: Vec<usize> = Vec::new();
        let mut k: usize = 0;
        while k < count
            invariant
                count == copies.len(),
                count == sel.len(),
                count > 0,
                k <= count,
                items@ == copies.skip(k as int),
                forall|j: int| 0 <= j < count ==> clip_copied(#[trigger] sel[j], copies[j]),
                forall|j: int| 0 <= j < count ==> #[trigger] duplicated_start(sel, j) <= u64::MAX,
                block == max_end(sel) - min_start(sel),
                self.playhead_tick == old(self).playhead_tick,
                self.clipboard == old(self).clipboard,
                next0 == old(self).next_clip_id,
                next0 + count <= usize::MAX,
                self.next_clip_id == next0 + k,
                n == old(self).clips@.len(),
                self.clips@.len() == n + k,
                self.clips@.take(n as int) == old(self).clips@,
                ids_below(self.clips@, self.next_clip_id),
                forall|j: int| 0 <= j < k ==> clip_placed(sel[j], #[trigger] self.clips@[n + j],
                    (next0 + j) as usize, duplicated_start(sel, j) as u64),
                new_sel@ == Seq::new(k as nat, |j: int| (next0 + j) as usize),
            decreases count - k,
        {
            let mut nc = items.remove(0);
            assert(nc == copies[k as int]);
            assert(clip_copied(sel[k as int], copies[k as int]));
            assert(duplicated_start(sel, k as int) <= u64::MAX);
            assert(items@ =~= copies.skip(k + 1));
            nc.id = self.next_clip_id;
            nc.start_tick = nc.start_tick + block;
            let ghost before = self.clips@;
            new_sel.push(nc.id);
            self.clips.push(nc);
            self.next_clip_id = self.next_clip_id + 1;
            assert(self.clips@.take(n as int) =~= before.take(n as int));
            assert forall|j: int| 0 <= j < self.clips@.len() implies #[trigger] self.clips@[j].id < self.next_clip_id by {
                if j < before.len() {
                    assert(self.clips@[j] == before[j]);
                }
            }
            assert forall|j: int| 0 <= j < k + 1 implies clip_placed(sel[j], #[trigger] self.clips@[n + j],
                (next0 + j) as usize, duplicated_start(sel, j) as u64) by {
                if j < k {
                    assert(self.clips@[n + j] == before[n + j]);
                }
            }
            assert(new_sel@ =~= Seq::new((k + 1) as nat, |j: int| (next0 + j) as usize));
            k += 1;
        }
        self.selected_clips = new_sel;
    }
}

impl<D> TimelineClip<D> {
    /// The clip after its left edge is dragged to `target`: an audio clip
    /// keeps its end and its audio in place (the sample offset follows),
    /// as long as the edge stays before the end, not before the sample's
    /// start and inside the sample. Other clips do not trim.
    pub open spec fn trimmed_left(self, target: u64) -> TimelineClip<D> {
        match self.audio {
            Some(a) => {
                let end = self.end_tick();
                let original_start = sat_sub(self.start_tick, a.sample_offset_ticks);
                if target < end && target >= original_start && target - original_start < a.total_sample_ticks {
                    TimelineClip {
                        start_tick: target,
                        duration_ticks: (end - target) as u64,
                        audio: Some(AudioSpan { sample_offset_ticks: (target - original_start) as u64, ..a }),
                        ..self
                    }
                } else {
                    self
                }
            },
            None => self,
        }
    }

    /// The clip after its right edge is dragged to `target`: an audio clip
    /// takes the requested length, at most what the sample has left after
    /// its offset and at least one tick. Other clips do not trim.
    pub open spec fn trimmed_right(self, target: u64) -> TimelineClip<D> {
        match self.audio {
            Some(a) => if target > self.start_tick {
                let requested = (target - self.start_tick) as u64;
                let available = sat_sub(a.total_sample_ticks, a.sample_offset_ticks);
                let d = if requested < available { requested } else { available };
                TimelineClip { duration_ticks: if d < 1 { 1 } else { d }, ..self }
            } else {
                self
            },
            None => self,
        }
    }

    /// The clip moved to start at `target`, onto `track` when given.
    pub open spec fn moved(self, target: u64, track: Option<usize>) -> TimelineClip<D> {
        TimelineClip {
            start_tick: target,
            track: match track { Some(t) => t, None => self.track },
            ..self
        }
    }

    /// Whether an audio clip can be cut at `at` (strictly inside it).
    pub open spec fn slices_at(self, at: u64) -> bool {
        self.audio is Some && self.start_tick < at && at < self.end_tick()
    }

    /// The part of a cut clip before `at`.
    pub open spec fn left_of(self, at: u64) -> TimelineClip<D> {
        TimelineClip { duration_ticks: (at - self.start_tick) as u64, ..self }
    }
}

/// `r` is the part of `c` after the cut at `at`, under the id `id`: it
/// starts at the cut, ends where `c` ended, and reads the sample from
/// where the left part stops.
pub open spec fn right_of<D: Clone>(c: TimelineClip<D>, at: u64, id: usize, r: TimelineClip<D>) -> bool {
    &&& r.id == id
    &&& r.track == c.track
    &&& r.start_tick == at
    &&& r.duration_ticks == c.end_tick() - at
    &&& r.audio == Some(AudioSpan {
        sample_offset_ticks: (c.audio->0.sample_offset_ticks + (at - c.start_tick)) as u64,
        total_sample_ticks: c.audio->0.total_sample_ticks,
    })
    &&& vstd::pervasive::cloned(c.data, r.data)
}

impl<D> Timeline<D> {
    /// Drags the left edge of clip `idx` to the pointer (snapped).
    pub fn trim_left(&mut self, idx: usize, pointer_tick: u64, grid_ticks: u64)
        requires
            old(self).wf(),
            idx < old(self).clips@.len(),
            old(self).clips@[idx as int].end_tick() <= u64::MAX,
        ensures
            final(self).wf(),
            final(self).clips@ == old(self).clips@.update(idx as int,
                old(self).clips@[idx as int].trimmed_left(spec_snap(pointer_tick, grid_ticks))),
            final(self).selected_clips == old(self).selected_clips,
            final(self).clipboard == old(self).clipboard,
            final(self).next_clip_id == old(self).next_clip_id,
            final(self).playhead_tick == old(self).playhead_tick,
    {
        let target = snap_ticks(pointer_tick, grid_ticks);
        if let Some(a) = self.clips[idx].audio {
            let end = self.clips[idx].start_tick + self.clips[idx].duration_ticks;
            if target < end {
                let original_start = self.clips[idx].start_tick.saturating_sub(a.sample_offset_ticks);
                if target >= original_start {
                    let new_offset = target - original_start;
                    if new_offset < a.total_sample_ticks {
                        self.clips[idx].audio = Some(AudioSpan { sample_offset_ticks: new_offset, ..a });
                        self.clips[idx].start_tick = target;
                        self.clips[idx].duration_ticks = end - target;
                    }
                }
            }
        }
        assert(self.clips@ =~= old(self).clips@.update(idx as int,
            old(self).clips@[idx as int].trimmed_left(spec_snap(pointer_tick, grid_ticks))));
    }

    /// Drags the right edge of clip `idx` to the pointer (snapped).
    pub fn trim_right(&mut self, idx: usize, pointer_tick: u64, grid_ticks: u64)
        requires
            old(self).wf(),
            idx < old(self).clips@.len(),
        ensures
            final(self).wf(),
            final(self).clips@ == old(self).clips@.update(idx as int,
                old(self).clips@[idx as int].trimmed_right(spec_snap(pointer_tick, grid_ticks))),
            final(self).selected_clips == old(self).selected_clips,
            final(self).clipboard == old(self).clipboard,
            final(self).next_clip_id == old(self).next_clip_id,
            final(self).playhead_tick == old(self).playhead_tick,
    {
        let target = snap_ticks(pointer_tick, grid_ticks);
        if target > self.clips[idx].start_tick {
            let requested = target - self.clips[idx].start_tick;
            if let Some(a) = self.clips[idx].audio {
                let available = a.total_sample_ticks.saturating_sub(a.sample_offset_ticks);
                let d = if requested < available { requested } else { available };
                self.clips[idx].duration_ticks = if d < 1 { 1 } else { d };
            }
        }
        assert(self.clips@ =~= old(self).clips@.update(idx as int,
            old(self).clips@[idx as int].trimmed_right(spec_snap(pointer_tick, grid_ticks))));
    }

    /// Moves clip `idx` to the pointer (snapped), onto `track` when the
    /// pointer is over one.
    pub fn move_clip(&mut self, idx: usize, pointer_tick: u64, grid_ticks: u64, track: Option<usize>)
        requires
            old(self).wf(),
            idx < old(self).clips@.len(),
        ensures
            final(self).wf(),
            final(self).clips@ == old(self).clips@.update(idx as int,
                old(self).clips@[idx as int].moved(spec_snap(pointer_tick, grid_ticks), track)),
            final(self).selected_clips == old(self).selected_clips,
            final(self).clipboard == old(self).clipboard,
            final(self).next_clip_id == old(self).next_clip_id,
            final(self).playhead_tick == old(self).playhead_tick,
    {
        self.clips[idx].start_tick = snap_ticks(pointer_tick, grid_ticks);
        if let Some(t) = track {
            self.clips[idx].track = t;
        }
        assert(self.clips@ =~= old(self).clips@.update(idx as int,
            old(self).clips@[idx as int].moved(spec_snap(pointer_tick, grid_ticks), track)));
    }
}

impl<D: Clone> Timeline<D> {
    /// Cuts audio clip `idx` at the pointer (snapped) when that falls
    /// strictly inside it: the clip keeps the part before the cut and a new
    /// clip (fresh id, appended) holds the rest. Returns the new clip's id.
    pub fn slice_clip(&mut self, idx: usize, pointer_tick: u64, grid_ticks: u64) -> (new_id: Option<usize>)
        requires
            old(self).wf(),
            idx < old(self).clips@.len(),
            old(self).clips@[idx as int].end_tick() <= u64::MAX,
            old(self).clips@[idx as int].slices_at(spec_snap(pointer_tick, grid_ticks)) ==> {
                &&& old(self).next_clip_id < usize::MAX
                &&& old(self).clips@[idx as int].audio->0.sample_offset_ticks
                    + (spec_snap(pointer_tick, grid_ticks) - old(self).clips@[idx as int].start_tick) <= u64::MAX
            },
        ensures
            final(self).wf(),
            final(self).selected_clips == old(self).selected_clips,
            final(self).clipboard == old(self).clipboard,
            final(self).playhead_tick == old(self).playhead_tick,
            ({
                let at = spec_snap(pointer_tick, grid_ticks);
                let c = old(self).clips@[idx as int];
                &&& !c.slices_at(at) ==> new_id is None && final(self).clips == old(self).clips
                    && final(self).next_clip_id == old(self).next_clip_id
                &&& c.slices_at(at) ==> {
                    &&& new_id == Some(old(self).next_clip_id)
                    &&& final(self).next_clip_id == old(self).next_clip_id + 1
                    &&& final(self).clips@.len() == old(self).clips@.len() + 1
                    &&& final(self).clips@.drop_last() == old(self).clips@.update(idx as int, c.left_of(at))
                    &&& right_of(c, at, old(self).next_clip_id, final(self).clips@.last())
                }
            }),
    {
        let at = snap_ticks(pointer_tick, grid_ticks);
        let start = self.clips[idx].start_tick;
        let end = self.clips[idx].start_tick + self.clips[idx].duration_ticks;
        let a = match self.clips[idx].audio {
            Some(a) => a,
            None => { return None; },
        };
        if !(start < at && at < end) {
            return None;
        }
        let left = at - start;
        let right = TimelineClip {
            id: self.next_clip_id,
            track: self.clips[idx].track,
            start_tick: at,
            duration_ticks: end - at,
            audio: Some(AudioSpan {
                sample_offset_ticks: a.sample_offset_ticks + left,
                total_sample_ticks: a.total_sample_ticks,
            }),
            data: self.clips[idx].data.clone(),
        };
        let id = self.next_clip_id;
        self.next_clip_id = self.next_clip_id + 1;
        self.clips[idx].duration_ticks = left;
        let ghost mid = self.clips@;
        self.clips.push(right);
        assert(self.clips@.drop_last() =~= mid);
        assert(mid =~= old(self).clips@.update(idx as int, old(self).clips@[idx as int].left_of(at)));
        assert forall|j: int| 0 <= j < self.clips@.len() implies #[trigger] self.clips@[j].id < self.next_clip_id by {
            if j < mid.len() {
                assert(self.clips@[j] == mid[j]);
                if j != idx {
                    assert(mid[j] == old(self).clips@[j]);
                }
            }
        }
        Some(id)
    }
}

/// Trimming the left edge of an audio clip keeps its end and keeps its
/// audio in place on the timeline (start minus sample offset does not
/// move), for a clip whose sample starts at or after tick 0.
pub proof fn lemma_trim_left_keeps_audio_in_place<D>(c: TimelineClip<D>, target: u64)
    requires
        c.audio is Some,
        c.audio->0.sample_offset_ticks <= c.start_tick,
        c.end_tick() <= u64::MAX,
    ensures
        c.trimmed_left(target).end_tick() == c.end_tick(),
        c.trimmed_left(target).start_tick - c.trimmed_left(target).audio->0.sample_offset_ticks
            == c.start_tick - c.audio->0.sample_offset_ticks,
        c.trimmed_left(target).audio->0.total_sample_ticks == c.audio->0.total_sample_ticks,
{
}

/// Trimming the right edge keeps the start and the audio; the length is
/// at least one tick and does not run past the sample (unless one tick).
pub proof fn lemma_trim_right_stays_in_sample<D>(c: TimelineClip<D>, target: u64)
    requires
        c.audio is Some,
        target > c.start_tick,
    ensures
        c.trimmed_right(target).start_tick == c.start_tick,
        c.trimmed_right(target).audio == c.audio,
        c.trimmed_right(target).duration_ticks >= 1,
        c.trimmed_right(target).duration_ticks <= target - c.start_tick
            || c.trimmed_right(target).duration_ticks == 1,
        c.trimmed_right(target).duration_ticks
            <= c.audio->0.total_sample_ticks - c.audio->0.sample_offset_ticks
            || c.trimmed_right(target).duration_ticks == 1,
{
}

/// A cut is seamless: the left part ends where the right part starts,
/// together they last as long as the clip did, and the right part reads
/// the sample from where the left part stops.
pub proof fn lemma_slice_is_seamless<D: Clone>(c: TimelineClip<D>, at: u64, id: usize, r: TimelineClip<D>)
    requires
        c.slices_at(at),
        c.audio->0.sample_offset_ticks + (at - c.start_tick) <= u64::MAX,
        right_of(c, at, id, r),
    ensures
        c.left_of(at).end_tick() == r.start_tick,
        c.left_of(at).duration_ticks + r.duration_ticks == c.duration_ticks,
        r.audio->0.sample_offset_ticks == c.left_of(at).audio->0.sample_offset_ticks + c.left_of(at).duration_ticks,
        c.left_of(at).start_tick == c.start_tick,
{
}

/// Pasted clips keep their distances from one another, and the block
/// starts on the playhead: the earliest copy lands exactly there and none
/// lands before.
pub proof fn lemma_paste_keeps_spacing<D>(cb: Seq<TimelineClip<D>>, playhead: u64)
    requires
        cb.len() > 0,
    ensures
        forall|j: int, k: int| 0 <= j < cb.len() && 0 <= k < cb.len() ==>
            #[trigger] pasted_start(cb, playhead, j) - #[trigger] pasted_start(cb, playhead, k)
                == cb[j].start_tick - cb[k].start_tick,
        forall|k: int| 0 <= k < cb.len() ==> #[trigger] pasted_start(cb, playhead, k) >= playhead,
        exists|k: int| 0 <= k < cb.len() && #[trigger] pasted_start(cb, playhead, k) == playhead,
{
    lemma_min_start_bounds(cb);
    let k0 = choose|k: int| 0 <= k < cb.len() && min_start(cb) == #[trigger] cb[k].start_tick;
    assert(pasted_start(cb, playhead, k0) == playhead);
}

/// Duplicated clips land after the selection: every copy starts at or
/// after the latest end of the selected clips, the earliest one exactly
/// there, and the copies keep their distances.
pub proof fn lemma_duplicate_follows_selection<D>(sel: Seq<TimelineClip<D>>)
    requires
        sel.len() > 0,
    ensures
        forall|k: int| 0 <= k < sel.len() ==> #[trigger] duplicated_start(sel, k) >= max_end(sel),
        exists|k: int| 0 <= k < sel.len() && #[trigger] duplicated_start(sel, k) == max_end(sel),
        forall|j: int, k: int| 0 <= j < sel.len() && 0 <= k < sel.len() ==>
            #[trigger] duplicated_start(sel, j) - #[trigger] duplicated_start(sel, k) == sel[j].start_tick - sel[k].start_tick,
{
    lemma_min_start_bounds(sel);
    let k0 = choose|k: int| 0 <= k < sel.len() && min_start(sel) == #[trigger] sel[k].start_tick;
    assert(duplicated_start(sel, k0) == max_end(sel));
}

} // verus!
