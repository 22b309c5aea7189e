//! The session matrix of clip slots: tracks by scenes.
use vstd::prelude::*;
use crate::clip::{Clip, ClipState, VoiceState};

verus! {

pub const MAX_TRACKS: usize = 16;
pub const MAX_SCENES: usize = 32;

/// A fixed grid of `MAX_TRACKS` rows by `MAX_SCENES` slots; `None` is an
/// empty slot.
pub struct TrackMatrix {
    pub slots: Vec<Vec<Option<Clip>>>,
}

/// Whether a slot holds a playing clip whose voice has finished.
pub open spec fn slot_finishes(slot: Option<Clip>, global_pos: u64, global_loop: Option<(u64, u64)>) -> bool {
    match slot {
        Some(c) => c.state == ClipState::Playing
            && c.spec_voice_state(global_pos, global_loop) == VoiceState::Finished,
        None => false,
    }
}

/// The slot after polling its voice.
pub open spec fn polled_slot(slot: Option<Clip>, global_pos: u64, global_loop: Option<(u64, u64)>) -> Option<Clip> {
    match slot {
        Some(c) => Some(c.after_poll(global_pos, global_loop)),
        None => None,
    }
}

/// The slot after its scene was launched: a clip there is queued.
pub open spec fn queued_slot(slot: Option<Clip>) -> Option<Clip> {
    match slot {
        Some(c) => Some(Clip { state: ClipState::Queued, ..c }),
        None => None,
    }
}

/// Number of finishing slots among the first `n` of a row.
pub open spec fn count_row(row: Seq<Option<Clip>>, n: int, global_pos: u64, global_loop: Option<(u64, u64)>) -> nat
    decreases n,
{
    if n <= 0 {
        0
    } else {
        count_row(row, n - 1, global_pos, global_loop)
            + if slot_finishes(row[n - 1], global_pos, global_loop) { 1nat } else { 0nat }
    }
}

/// Number of finishing slots among the first `n` rows of a grid.
pub open spec fn count_grid(grid: Seq<Seq<Option<Clip>>>, n: int, global_pos: u64, global_loop: Option<(u64, u64)>) -> nat
    decreases n,
{
    if n <= 0 {
        0
    } else {
        count_grid(grid, n - 1, global_pos, global_loop)
            + count_row(grid[n - 1], grid[n - 1].len() as int, global_pos, global_loop)
    }
}

proof fn lemma_count_row_bound(row: Seq<Option<Clip>>, n: int, global_pos: u64, global_loop: Option<(u64, u64)>)
    requires
        0 <= n,
    ensures
        count_row(row, n, global_pos, global_loop) <= n,
    decreases n,
{
    if n > 0 {
        lemma_count_row_bound(row, n - 1, global_pos, global_loop);
    }
}

proof fn lemma_count_grid_bound(grid: Seq<Seq<Option<Clip>>>, n: int, global_pos: u64, global_loop: Option<(u64, u64)>)
    requires
        0 <= n <= grid.len(),
        forall|t: int| 0 <= t < grid.len() ==> #[trigger] grid[t].len() == MAX_SCENES,
    ensures
        count_grid(grid, n, global_pos, global_loop) <= n * MAX_SCENES,
    decreases n,
{
    if n > 0 {
        lemma_count_grid_bound(grid, n - 1, global_pos, global_loop);
        lemma_count_row_bound(grid[n - 1], grid[n - 1].len() as int, global_pos, global_loop);
    }
}

impl TrackMatrix {
    /// The slots as a grid of sequences, indexed `[track][scene]`.
    pub open spec fn grid(self) -> Seq<Seq<Option<Clip>>> {
        self.slots@.map_values(|row: Vec<Option<Clip>>| row@)
    }

    /// The grid has its fixed shape.
    pub open spec fn wf(self) -> bool {
        &&& self.slots@.len() == MAX_TRACKS
        &&& forall|t: int| 0 <= t < MAX_TRACKS ==> #[trigger] self.slots@[t]@.len() == MAX_SCENES
    }

    /// An empty matrix.
    pub fn new() -> (m: TrackMatrix)
        ensures
            m.wf(),
            forall|t: int, s: int| 0 <= t < MAX_TRACKS && 0 <= s < MAX_SCENES ==> (#[trigger] m.slots@[t]@[s]) is None,
    {
        let mut slots: Vec<Vec<Option<Clip>>> = Vec::new();
        let mut t: usize = 0;
        while t < MAX_TRACKS
            invariant
                t <= MAX_TRACKS,
                slots@.len() == t,
                forall|i: int| 0 <= i < t ==> #[trigger] slots@[i]@.len() == MAX_SCENES,
                forall|i: int, s: int| 0 <= i < t && 0 <= s < MAX_SCENES ==> (#[trigger] slots@[i]@[s]) is None,
            decreases MAX_TRACKS - t,
        {
            let mut row: Vec<Option<Clip>> = Vec::new();
            let mut s: usize = 0;
            while s < MAX_SCENES
                invariant
                    s <= MAX_SCENES,
                    row@.len() == s,
                    forall|j: int| 0 <= j < s ==> (#[trigger] row@[j]) is None,
                decreases MAX_SCENES - s,
            {
                row.push(None);
                s += 1;
            }
            slots.push(row);
            t += 1;
        }
        TrackMatrix { slots }
    }

    /// Queues every clip of a scene (row of slots); the engine moves them to
    /// `Playing` on the next quantization pulse. Out-of-range scenes are
    /// ignored.
    pub fn trigger_scene(&mut self, scene_index: usize)
        requires
            old(self).wf(),
        ensures
            final(self).wf(),
            forall|t: int, s: int| 0 <= t < MAX_TRACKS && 0 <= s < MAX_SCENES ==>
                #[trigger] final(self).slots@[t]@[s] == (if s == scene_index {
                    queued_slot(old(self).slots@[t]@[s])
                } else {
                    old(self).slots@[t]@[s]
                }),
    {
        if scene_index >= MAX_SCENES {
            return;
        }
        let ghost old_slots = self.slots@;
        let mut track: usize = 0;
        while track < MAX_TRACKS
            invariant
                track <= MAX_TRACKS,
                scene_index < MAX_SCENES,
                self.wf(),
                old_slots.len() == MAX_TRACKS,
                forall|t: int| 0 <= t < MAX_TRACKS ==> #[trigger] old_slots[t]@.len() == MAX_SCENES,
                forall|t: int, s: int| 0 <= t < MAX_TRACKS && 0 <= s < MAX_SCENES ==>
                    #[trigger] self.slots@[t]@[s] == (if s == scene_index && t < track {
                        queued_slot(old_slots[t]@[s])
                    } else {
                        old_slots[t]@[s]
                    }),
            decreases MAX_TRACKS - track,
        {
            let slot = &mut self.slots[track][scene_index];
            match slot {
                Some(clip) => {
                    clip.set_state(ClipState::Queued);
                },
                None => {},
            }
            track += 1;
        }
    }

    /// Polls every playing slot's voice: a finished voice (no clip loop and
    /// past its source, or outside its window) takes its slot from
    /// `Playing` to `Stopped` at once. Looping clips keep playing. Returns
    /// how many slots were stopped.
    pub fn poll_finished_voices(&mut self, global_pos: u64, global_loop: Option<(u64, u64)>) -> (deactivated: usize)
        requires
            old(self).wf(),
        ensures
            final(self).wf(),
            forall|t: int, s: int| 0 <= t < MAX_TRACKS && 0 <= s < MAX_SCENES ==>
                #[trigger] final(self).slots@[t]@[s] == polled_slot(old(self).slots@[t]@[s], global_pos, global_loop),
            deactivated == count_grid(old(self).grid(), MAX_TRACKS as int, global_pos, global_loop),
    {
        let ghost old_slots = self.slots@;
        let ghost old_grid = self.grid();
        let mut deactivated: usize = 0;
        let mut track: usize = 0;
        while track < MAX_TRACKS
            invariant
                track <= MAX_TRACKS,
                self.wf(),
                old_slots.len() == MAX_TRACKS,
                old_grid == old_slots.map_values(|row: Vec<Option<Clip>>| row@),
                forall|t: int| 0 <= t < MAX_TRACKS ==> #[trigger] old_slots[t]@.len() == MAX_SCENES,
                forall|t: int, s: int| 0 <= t < MAX_TRACKS && 0 <= s < MAX_SCENES ==>
                    #[trigger] self.slots@[t]@[s] == (if t < track {
                        polled_slot(old_slots[t]@[s], global_pos, global_loop)
                    } else {
                        old_slots[t]@[s]
                    }),
                deactivated == count_grid(old_grid, track as int, global_pos, global_loop),
                deactivated <= track * MAX_SCENES,
            decreases MAX_TRACKS - track,
        {
            let ghost row_before = self.slots@[track as int]@;
            let mut scene: usize = 0;
            let mut in_row: usize = 0;
            while scene < MAX_SCENES
                invariant
                    track < MAX_TRACKS,
                    scene <= MAX_SCENES,
                    self.wf(),
                    row_before == old_slots[track as int]@,
                    forall|t: int, s: int| 0 <= t < MAX_TRACKS && 0 <= s < MAX_SCENES ==>
                        #[trigger] self.slots@[t]@[s] == (if t < track || (t == track && s < scene) {
                            polled_slot(old_slots[t]@[s], global_pos, global_loop)
                        } else {
                            old_slots[t]@[s]
                        }),
                    in_row == count_row(row_before, scene as int, global_pos, global_loop),
                    in_row <= scene,
                decreases MAX_SCENES - scene,
            {
                let slot = &mut self.slots[track][scene];
                match slot {
                    Some(clip) => {
                        if clip.get_state() == ClipState::Playing
                            && clip.poll_voice(global_pos, global_loop) == VoiceState::Finished {
                            in_row += 1;
                        }
                    },
                    None => {},
                }
                scene += 1;
            }
            assert(old_grid[track as int] == row_before);
            deactivated += in_row;
            track += 1;
        }
        deactivated
    }

    /// The same poll, named for the render callback: finished voices
    /// deactivate their slots.
    pub fn deactivate_finished_slots(&mut self, global_pos: u64, global_loop: Option<(u64, u64)>) -> (deactivated: usize)
        requires
            old(self).wf(),
        ensures
            final(self).wf(),
            forall|t: int, s: int| 0 <= t < MAX_TRACKS && 0 <= s < MAX_SCENES ==>
                #[trigger] final(self).slots@[t]@[s] == polled_slot(old(self).slots@[t]@[s], global_pos, global_loop),
            deactivated == count_grid(old(self).grid(), MAX_TRACKS as int, global_pos, global_loop),
    {
        self.poll_finished_voices(global_pos, global_loop)
    }
}

} // verus!

verus! {

proof fn lemma_count_row_zero(row: Seq<Option<Clip>>, n: int, global_pos: u64, global_loop: Option<(u64, u64)>)
    requires
        0 <= n <= row.len(),
        forall|s: int| 0 <= s < n ==> !slot_finishes(#[trigger] row[s], global_pos, global_loop),
    ensures
        count_row(row, n, global_pos, global_loop) == 0,
    decreases n,
{
    if n > 0 {
        lemma_count_row_zero(row, n - 1, global_pos, global_loop);
    }
}

proof fn lemma_count_grid_zero(grid: Seq<Seq<Option<Clip>>>, n: int, global_pos: u64, global_loop: Option<(u64, u64)>)
    requires
        0 <= n <= grid.len(),
        forall|t: int, s: int| 0 <= t < n && 0 <= s < grid[t].len()
            ==> !slot_finishes(#[trigger] grid[t][s], global_pos, global_loop),
    ensures
        count_grid(grid, n, global_pos, global_loop) == 0,
    decreases n,
{
    if n > 0 {
        lemma_count_grid_zero(grid, n - 1, global_pos, global_loop);
        let row = grid[n - 1];
        assert forall|s: int| 0 <= s < row.len() implies !slot_finishes(#[trigger] row[s], global_pos, global_loop) by {
            assert(row[s] == grid[n - 1][s]);
        }
        lemma_count_row_zero(row, row.len() as int, global_pos, global_loop);
    }
}

/// A polled slot never finishes again at the same position.
pub proof fn lemma_polled_slot_settled(slot: Option<Clip>, global_pos: u64, global_loop: Option<(u64, u64)>)
    ensures
        !slot_finishes(polled_slot(slot, global_pos, global_loop), global_pos, global_loop),
        polled_slot(polled_slot(slot, global_pos, global_loop), global_pos, global_loop)
            == polled_slot(slot, global_pos, global_loop),
{
}

/// Polling twice at the same position: the second poll finds nothing left
/// to stop.
pub proof fn lemma_second_poll_stops_nothing(before: TrackMatrix, after: TrackMatrix, global_pos: u64, global_loop: Option<(u64, u64)>)
    requires
        before.wf(),
        after.wf(),
        forall|t: int, s: int| 0 <= t < MAX_TRACKS && 0 <= s < MAX_SCENES ==>
            #[trigger] after.slots@[t]@[s] == polled_slot(before.slots@[t]@[s], global_pos, global_loop),
    ensures
        count_grid(after.grid(), MAX_TRACKS as int, global_pos, global_loop) == 0,
{
    let g = after.grid();
    assert forall|t: int, s: int| 0 <= t < MAX_TRACKS && 0 <= s < g[t].len()
        implies !slot_finishes(#[trigger] g[t][s], global_pos, global_loop) by {
        assert(g[t] == after.slots@[t]@);
        assert(after.slots@[t]@[s] == polled_slot(before.slots@[t]@[s], global_pos, global_loop));
        lemma_polled_slot_settled(before.slots@[t]@[s], global_pos, global_loop);
    }
    lemma_count_grid_zero(g, MAX_TRACKS as int, global_pos, global_loop);
}

/// Launching a scene leaves every other scene untouched and queues exactly
/// the occupied slots of the scene.
pub proof fn lemma_trigger_scene_queues_row(before: TrackMatrix, after: TrackMatrix, scene_index: usize)
    requires
        before.wf(),
        after.wf(),
        scene_index < MAX_SCENES,
        forall|t: int, s: int| 0 <= t < MAX_TRACKS && 0 <= s < MAX_SCENES ==>
            #[trigger] after.slots@[t]@[s] == (if s == scene_index {
                queued_slot(before.slots@[t]@[s])
            } else {
                before.slots@[t]@[s]
            }),
    ensures
        forall|t: int| 0 <= t < MAX_TRACKS ==> (
            (#[trigger] after.slots@[t]@[scene_index as int]) is Some
                <==> before.slots@[t]@[scene_index as int] is Some),
        forall|t: int| 0 <= t < MAX_TRACKS && (#[trigger] after.slots@[t]@[scene_index as int]) is Some
            ==> after.slots@[t]@[scene_index as int]->0.state == ClipState::Queued,
{
}

} // verus!
