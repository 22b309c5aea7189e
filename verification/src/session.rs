//! The OpenLive session view: a grid of pads (tracks by scenes) with their
//! launch states, track and scene lists, a one-slot clipboard and pad
//! launching. The audio of a clip and the mixer values of a track are
//! carried as opaque data.
use vstd::prelude::*;
use crate::names::{numbered_label, spec_decimal};
use crate::engine::VoiceEngine;

verus! {

/// Launch state of a pad as the session view shows it.
#[derive(Clone, Copy, Debug, PartialEq, Eq, Structural)]
pub enum SlotState {
    Empty,
    Stopped,
    QueuedToPlay,
    Playing,
    QueuedToStop,
}

/// A clip on a pad: its id, its own loop in ticks, and the rest of its
/// data (source, local editor state) as `data`.
pub struct MatrixClip<D> {
    pub id: usize,
    pub loop_start: u64,
    pub loop_end: u64,
    pub loop_enabled: bool,
    pub data: D,
}

impl<D: Clone> Clone for MatrixClip<D> {
    fn clone(&self) -> (c: Self)
        ensures
            c.id == self.id && c.loop_start == self.loop_start && c.loop_end == self.loop_end
                && c.loop_enabled == self.loop_enabled,
            vstd::pervasive::cloned(self.data, c.data),
    {
        MatrixClip {
            id: self.id,
            loop_start: self.loop_start,
            loop_end: self.loop_end,
            loop_enabled: self.loop_enabled,
            data: self.data.clone(),
        }
    }
}

impl<D> MatrixClip<D> {
    /// Length of the clip loop in ticks (0 when empty or reversed).
    pub fn loop_length_ticks(&self) -> (len: u64)
        ensures
            len == crate::transport::sat_sub(self.loop_end, self.loop_start),
    {
        self.loop_end.saturating_sub(self.loop_start)
    }

    /// Whether the clip has an enabled, non-empty loop.
    pub fn has_valid_clip_loop(&self) -> (valid: bool)
        ensures
            valid == (self.loop_enabled && self.loop_end > self.loop_start),
    {
        self.loop_enabled && self.loop_end > self.loop_start
    }
}

/// A pad: its launch state and its clip, if any.
pub struct MatrixSlot<D> {
    pub state: SlotState,
    pub clip: Option<MatrixClip<D>>,
}

/// The slot is a faithful copy: same state, same clip fields, cloned data.
pub open spec fn slot_copied<D: Clone>(from: MatrixSlot<D>, to: MatrixSlot<D>) -> bool {
    &&& to.state == from.state
    &&& to.clip is Some == from.clip is Some
    &&& from.clip is Some ==> {
        let a = from.clip->0;
        let b = to.clip->0;
        &&& b.id == a.id && b.loop_start == a.loop_start && b.loop_end == a.loop_end
        &&& b.loop_enabled == a.loop_enabled
        &&& vstd::pervasive::cloned(a.data, b.data)
    }
}

impl<D: Clone> Clone for MatrixSlot<D> {
    fn clone(&self) -> (s: Self)
        ensures
            slot_copied(*self, s),
    {
        MatrixSlot {
            state: self.state,
            clip: match &self.clip {
                Some(c) => Some(c.clone()),
                None => None,
            },
        }
    }
}

impl<D> MatrixSlot<D> {
    pub open spec fn is_empty_slot(self) -> bool {
        self.state == SlotState::Empty && self.clip is None
    }

    /// An empty pad.
    pub fn empty() -> (s: MatrixSlot<D>)
        ensures
            s.is_empty_slot(),
    {
        MatrixSlot { state: SlotState::Empty, clip: None }
    }
}

/// The one-slot clipboard of the session view.
pub struct MatrixClipboard<D> {
    pub copied_slot: Option<MatrixSlot<D>>,
}

impl<D: Clone> MatrixClipboard<D> {
    pub fn new() -> (c: MatrixClipboard<D>)
        ensures
            c.copied_slot is None,
    {
        MatrixClipboard { copied_slot: None }
    }

    /// Puts a copy of a slot into the clipboard.
    pub fn copy(&mut self, slot: &MatrixSlot<D>)
        ensures
            final(self).copied_slot is Some,
            slot_copied(*slot, final(self).copied_slot->0),
    {
        self.copied_slot = Some(slot.clone());
    }

    pub fn has_content(&self) -> (b: bool)
        ensures
            b == self.copied_slot is Some,
    {
        self.copied_slot.is_some()
    }

    pub fn clear(&mut self)
        ensures
            final(self).copied_slot is None,
    {
        self.copied_slot = None;
    }
}

/// A track row of the session view; `mix` holds its mixer values.
pub struct TrackMeta<V> {
    pub name: String,
    pub muted: bool,
    pub soloed: bool,
    pub mix: V,
}

pub struct SceneMeta {
    pub name: String,
}

/// A clip the engine must load for a pad (the pasted or duplicated clip
/// under its new id).
#[derive(Clone, Copy, Debug, PartialEq, Eq, Structural)]
pub struct LoadRequest {
    pub clip_id: usize,
    pub track_index: usize,
    pub scene_index: usize,
}

/// What a pad press asks of the engine.
#[derive(Clone, Copy, Debug, PartialEq, Eq, Structural)]
pub enum PadAction {
    /// Nothing (an empty pad).
    Nothing,
    /// The pad's clip was started: toggle it on in the engine.
    Started,
    /// The pad's clip was stopped: toggle it off in the engine.
    Stopped,
}

/// The session view: `grid[track][scene]` pads, the track and scene lists,
/// the next clip id and the selected pad.
pub struct SessionMatrixState<D, V> {
    pub grid: Vec<Vec<MatrixSlot<D>>>,
    pub tracks: Vec<TrackMeta<V>>,
    pub scenes: Vec<SceneMeta>,
    pub next_clip_id: usize,
    pub selected_slot: Option<(usize, usize)>,
}

/// The pad states of a grid.
pub open spec fn grid_states<D>(grid: Seq<Vec<MatrixSlot<D>>>) -> Seq<Seq<SlotState>> {
    grid.map_values(|row: Vec<MatrixSlot<D>>| row@.map_values(|s: MatrixSlot<D>| s.state))
}

impl<D, V> SessionMatrixState<D, V> {
    /// The grid has one row per track and one pad per scene in each row.
    pub open spec fn wf(self) -> bool {
        &&& self.grid@.len() == self.tracks@.len()
        &&& forall|t: int| 0 <= t < self.grid@.len() ==> #[trigger] self.grid@[t]@.len() == self.scenes@.len()
    }

    pub open spec fn slot(self, t: int, s: int) -> MatrixSlot<D> {
        self.grid@[t]@[s]
    }

    /// The selected pad, if any, lies in the grid.
    pub open spec fn selection_in_range(self) -> bool {
        self.selected_slot matches Some((t, s)) ==> t < self.tracks@.len() && s < self.scenes@.len()
    }
}


/// A row of `n` empty pads.
fn empty_row<D>(n: usize) -> (row: Vec<MatrixSlot<D>>)
    ensures
        row@.len() == n,
        forall|s: int| 0 <= s < n ==> (#[trigger] row@[s]).is_empty_slot(),
{
    let mut row: Vec<MatrixSlot<D>> = Vec::new();
    let mut i: usize = 0;
    while i < n
        invariant
            i <= n,
            row@.len() == i,
            forall|s: int| 0 <= s < i ==> (#[trigger] row@[s]).is_empty_slot(),
        decreases n - i,
    {
        row.push(MatrixSlot::empty());
        i += 1;
    }
    row
}

impl<D, V: Copy> SessionMatrixState<D, V> {
    /// The default session: 8 tracks ("Track 1".."Track 8") by 8 scenes
    /// ("Scene 1".."Scene 8"), all pads empty, ids from 1, nothing
    /// selected. Every track starts with the mixer values `mix`.
    pub fn new(mix: V) -> (m: SessionMatrixState<D, V>)
        ensures
            m.wf(),
            m.tracks@.len() == 8,
            m.scenes@.len() == 8,
            forall|t: int| 0 <= t < 8 ==> (#[trigger] m.tracks@[t]).name@ == "Track "@ + spec_decimal((t + 1) as nat)
                && !m.tracks@[t].muted && !m.tracks@[t].soloed && m.tracks@[t].mix == mix,
            forall|s: int| 0 <= s < 8 ==> (#[trigger] m.scenes@[s]).name@ == "Scene "@ + spec_decimal((s + 1) as nat),
            forall|t: int, s: int| 0 <= t < 8 && 0 <= s < 8 ==> (#[trigger] m.grid@[t]@[s]).is_empty_slot(),
            m.next_clip_id == 1,
            m.selected_slot is None,
    {
        let mut tracks: Vec<TrackMeta<V>> = Vec::new();
        let mut scenes: Vec<SceneMeta> = Vec::new();
        let mut grid: Vec<Vec<MatrixSlot<D>>> = Vec::new();
        let mut i: usize = 0;
        while i < 8
            invariant
                i <= 8,
                tracks@.len() == i,
                scenes@.len() == i,
                grid@.len() == i,
                forall|t: int| 0 <= t < i ==> (#[trigger] tracks@[t]).name@ == "Track "@ + spec_decimal((t + 1) as nat)
                    && !tracks@[t].muted && !tracks@[t].soloed && tracks@[t].mix == mix,
                forall|s: int| 0 <= s < i ==> (#[trigger] scenes@[s]).name@ == "Scene "@ + spec_decimal((s + 1) as nat),
                forall|t: int| 0 <= t < i ==> (#[trigger] grid@[t])@.len() == 8,
                forall|t: int, s: int| 0 <= t < i && 0 <= s < 8 ==> (#[trigger] grid@[t]@[s]).is_empty_slot(),
            decreases 8 - i,
        {
            tracks.push(TrackMeta { name: numbered_label("Track ", i + 1), muted: false, soloed: false, mix });
            scenes.push(SceneMeta { name: numbered_label("Scene ", i + 1) });
            grid.push(empty_row(8));
            i += 1;
        }
        SessionMatrixState { grid, tracks, scenes, next_clip_id: 1, selected_slot: None }
    }
}

impl<D, V> SessionMatrixState<D, V> {
    /// Appends a track named "Audio N" (N its 1-based number) with empty
    /// pads in every scene.
    pub fn add_track(&mut self, mix: V)
        requires
            old(self).wf(),
            old(self).tracks@.len() < usize::MAX,
        ensures
            final(self).wf(),
            final(self).tracks@.len() == old(self).tracks@.len() + 1,
            final(self).tracks@.drop_last() == old(self).tracks@,
            final(self).tracks@.last().name@ == "Audio "@ + spec_decimal((old(self).tracks@.len() + 1) as nat),
            !final(self).tracks@.last().muted && !final(self).tracks@.last().soloed,
            final(self).tracks@.last().mix == mix,
            final(self).scenes@ == old(self).scenes@,
            final(self).grid@.drop_last() == old(self).grid@,
            forall|s: int| 0 <= s < old(self).scenes@.len() ==> (#[trigger] final(self).grid@.last()@[s]).is_empty_slot(),
            final(self).next_clip_id == old(self).next_clip_id,
            final(self).selected_slot == old(self).selected_slot,
    {
        let track_num = self.tracks.len() + 1;
        self.tracks.push(TrackMeta { name: numbered_label("Audio ", track_num), muted: false, soloed: false, mix });
        let scene_count = self.scenes.len();
        self.grid.push(empty_row(scene_count));
        assert(self.tracks@.drop_last() =~= old(self).tracks@);
        assert(self.grid@.drop_last() =~= old(self).grid@);
    }

    /// Removes the last track (never the only one); a selection on it is
    /// dropped.
    pub fn remove_track(&mut self)
        requires
            old(self).wf(),
        ensures
            final(self).wf(),
            old(self).tracks@.len() > 1 ==> (
                final(self).tracks@ == old(self).tracks@.drop_last()
                && final(self).grid@ == old(self).grid@.drop_last()
                && final(self).selected_slot == (match old(self).selected_slot {
                    Some((t, s)) => if t >= old(self).tracks@.len() - 1 { None } else { Some((t, s)) },
                    None => None,
                })),
            old(self).tracks@.len() <= 1 ==> (
                final(self).tracks@ == old(self).tracks@
                && final(self).grid@ == old(self).grid@
                && final(self).selected_slot == old(self).selected_slot),
            old(self).selection_in_range() ==> final(self).selection_in_range(),
            final(self).scenes@ == old(self).scenes@,
            final(self).next_clip_id == old(self).next_clip_id,
    {
        if self.tracks.len() > 1 {
            self.tracks.pop();
            self.grid.pop();
            if let Some((t, _)) = self.selected_slot {
                if t >= self.tracks.len() {
                    self.selected_slot = None;
                }
            }
        }
    }

    /// Appends a scene named "Scene N" with an empty pad on every track.
    pub fn add_scene(&mut self)
        requires
            old(self).wf(),
            old(self).scenes@.len() < usize::MAX,
        ensures
            final(self).wf(),
            final(self).scenes@.len() == old(self).scenes@.len() + 1,
            final(self).scenes@.drop_last() == old(self).scenes@,
            final(self).scenes@.last().name@ == "Scene "@ + spec_decimal((old(self).scenes@.len() + 1) as nat),
            final(self).tracks@ == old(self).tracks@,
            forall|t: int| 0 <= t < old(self).grid@.len() ==> (#[trigger] final(self).grid@[t])@.drop_last() == old(self).grid@[t]@
                && final(self).grid@[t]@.last().is_empty_slot(),
            final(self).next_clip_id == old(self).next_clip_id,
            final(self).selected_slot == old(self).selected_slot,
    {
        let scene_num = self.scenes.len() + 1;
        self.scenes.push(SceneMeta { name: numbered_label("Scene ", scene_num) });
        assert(self.scenes@.drop_last() =~= old(self).scenes@);
        let ghost old_grid = self.grid@;
        let mut t: usize = 0;
        while t < self.grid.len()
            invariant
                t <= self.grid@.len(),
                self.grid@.len() == old_grid.len(),
                old_grid == old(self).grid@,
                self.tracks@ == old(self).tracks@,
                self.scenes@.len() == old(self).scenes@.len() + 1,
                self.scenes@.drop_last() == old(self).scenes@,
                self.scenes@.last().name@ == "Scene "@ + spec_decimal((old(self).scenes@.len() + 1) as nat),
                self.next_clip_id == old(self).next_clip_id,
                self.selected_slot == old(self).selected_slot,
                forall|i: int| 0 <= i < old_grid.len() ==> #[trigger] old_grid[i]@.len() == old(self).scenes@.len(),
                forall|i: int| 0 <= i < t ==> (#[trigger] self.grid@[i])@.drop_last() == old_grid[i]@
                    && self.grid@[i]@.last().is_empty_slot() && self.grid@[i]@.len() == old_grid[i]@.len() + 1,
                forall|i: int| t <= i < self.grid@.len() ==> #[trigger] self.grid@[i] == old_grid[i],
            decreases self.grid@.len() - t,
        {
            self.grid[t].push(MatrixSlot::empty());
            assert(self.grid@[t as int]@.drop_last() =~= old_grid[t as int]@);
            t += 1;
        }
    }

    /// Removes the last scene (never the only one) from every track; a
    /// selection on it is dropped.
    pub fn remove_scene(&mut self)
        requires
            old(self).wf(),
        ensures
            final(self).wf(),
            final(self).tracks@ == old(self).tracks@,
            old(self).scenes@.len() > 1 ==> (
                final(self).scenes@ == old(self).scenes@.drop_last()
                && (forall|t: int| 0 <= t < old(self).grid@.len() ==> (#[trigger] final(self).grid@[t])@ == old(self).grid@[t]@.drop_last())
                && final(self).selected_slot == (match old(self).selected_slot {
                    Some((t, s)) => if s >= old(self).scenes@.len() - 1 { None } else { Some((t, s)) },
                    None => None,
                })),
            old(self).scenes@.len() <= 1 ==> (
                final(self).scenes@ == old(self).scenes@
                && final(self).grid@ == old(self).grid@
                && final(self).selected_slot == old(self).selected_slot),
            old(self).selection_in_range() ==> final(self).selection_in_range(),
            final(self).grid@.len() == old(self).grid@.len(),
            final(self).next_clip_id == old(self).next_clip_id,
    {
        if self.scenes.len() > 1 {
            self.scenes.pop();
            let ghost old_grid = self.grid@;
            let mut t: usize = 0;
            while t < self.grid.len()
                invariant
                    t <= self.grid@.len(),
                    self.grid@.len() == old_grid.len(),
                    old_grid == old(self).grid@,
                    self.tracks@ == old(self).tracks@,
                    self.scenes@ == old(self).scenes@.drop_last(),
                    old(self).scenes@.len() > 1,
                    self.next_clip_id == old(self).next_clip_id,
                    self.selected_slot == old(self).selected_slot,
                    forall|i: int| 0 <= i < old_grid.len() ==> #[trigger] old_grid[i]@.len() == old(self).scenes@.len(),
                    forall|i: int| 0 <= i < t ==> (#[trigger] self.grid@[i])@ == old_grid[i]@.drop_last(),
                    forall|i: int| t <= i < self.grid@.len() ==> #[trigger] self.grid@[i] == old_grid[i],
                decreases self.grid@.len() - t,
            {
                let _ = self.grid[t].pop();
                t += 1;
            }
            if let Some((_, s)) = self.selected_slot {
                if s >= self.scenes.len() {
                    self.selected_slot = None;
                }
            }
        }
    }
}

/// The pad with another launch state.
pub open spec fn with_state<D>(slot: MatrixSlot<D>, state: SlotState) -> MatrixSlot<D> {
    MatrixSlot { state, ..slot }
}

/// The state a pad of the pressed pad's row takes when a stopped pad at
/// scene `pressed` starts: other playing pads of the row stop.
pub open spec fn row_state_on_start(old_state: SlotState, sc: int, pressed: int) -> SlotState {
    if sc == pressed {
        SlotState::Playing
    } else if old_state == SlotState::Playing {
        SlotState::Stopped
    } else {
        old_state
    }
}

impl<D, V> SessionMatrixState<D, V> {
    /// Row `t` after applying `f` to the state of every pad.
    pub open spec fn row_restated(self, t: int, row: Seq<MatrixSlot<D>>, f: spec_fn(SlotState, int) -> SlotState) -> bool {
        &&& row.len() == self.grid@[t]@.len()
        &&& forall|sc: int| 0 <= sc < row.len() ==> #[trigger] row[sc] == with_state(self.grid@[t]@[sc],
            f(self.grid@[t]@[sc].state, sc))
    }

    /// Presses a pad. An empty pad does nothing. A stopped pad starts
    /// (stopping the other playing pads of its track); a playing or queued
    /// pad stops. Returns what the engine must be told.
    pub fn trigger_pad(&mut self, track_idx: usize, scene_idx: usize) -> (action: PadAction)
        requires
            old(self).wf(),
            track_idx < old(self).tracks@.len(),
            scene_idx < old(self).scenes@.len(),
        ensures
            final(self).wf(),
            final(self).tracks@ == old(self).tracks@,
            final(self).scenes@ == old(self).scenes@,
            final(self).next_clip_id == old(self).next_clip_id,
            final(self).selected_slot == old(self).selected_slot,
            final(self).grid@.len() == old(self).grid@.len(),
            forall|t: int| 0 <= t < old(self).grid@.len() && t != track_idx ==> #[trigger] final(self).grid@[t] == old(self).grid@[t],
            ({
                let pad = old(self).slot(track_idx as int, scene_idx as int);
                let row = final(self).grid@[track_idx as int]@;
                if pad.clip is None || pad.state == SlotState::Empty {
                    action == PadAction::Nothing && row == old(self).grid@[track_idx as int]@
                } else if pad.state == SlotState::Stopped {
                    action == PadAction::Started
                    && old(self).row_restated(track_idx as int, row, |st: SlotState, sc: int| row_state_on_start(st, sc, scene_idx as int))
                } else {
                    action == PadAction::Stopped
                    && old(self).row_restated(track_idx as int, row,
                        |st: SlotState, sc: int| if sc == scene_idx { SlotState::Stopped } else { st })
                }
            }),
    {
        if self.grid[track_idx][scene_idx].clip.is_none() {
            return PadAction::Nothing;
        }
        let current_state = self.grid[track_idx][scene_idx].state;
        let ghost old_row = self.grid@[track_idx as int]@;
        match current_state {
            SlotState::Stopped => {
                let n = self.scenes.len();
                let mut sc: usize = 0;
                while sc < n
                    invariant
                        sc <= n,
                        n == old(self).scenes@.len(),
                        track_idx < old(self).grid@.len(),
                        scene_idx < n,
                        self.tracks@ == old(self).tracks@,
                        self.scenes@ == old(self).scenes@,
                        self.next_clip_id == old(self).next_clip_id,
                        self.selected_slot == old(self).selected_slot,
                        self.grid@.len() == old(self).grid@.len(),
                        old_row == old(self).grid@[track_idx as int]@,
                        old_row.len() == n,
                        old_row[scene_idx as int].state == SlotState::Stopped,
                        forall|t: int| 0 <= t < old(self).grid@.len() && t != track_idx ==> #[trigger] self.grid@[t] == old(self).grid@[t],
                        self.grid@[track_idx as int]@.len() == n,
                        forall|j: int| 0 <= j < n ==> #[trigger] self.grid@[track_idx as int]@[j] == with_state(old_row[j],
                            if j < sc && j != scene_idx && old_row[j].state == SlotState::Playing {
                                SlotState::Stopped
                            } else {
                                old_row[j].state
                            }),
                    decreases n - sc,
                {
                    if sc != scene_idx && self.grid[track_idx][sc].state == SlotState::Playing {
                        self.grid[track_idx][sc].state = SlotState::Stopped;
                    }
                    sc += 1;
                }
                self.grid[track_idx][scene_idx].state = SlotState::Playing;
                PadAction::Started
            },
            SlotState::Playing | SlotState::QueuedToPlay | SlotState::QueuedToStop => {
                self.grid[track_idx][scene_idx].state = SlotState::Stopped;
                PadAction::Stopped
            },
            SlotState::Empty => PadAction::Nothing,
        }
    }

    /// Launches a scene: on every track whose pad in the scene holds a
    /// clip, that pad plays and the track's other playing pads stop.
    pub fn trigger_scene(&mut self, scene_idx: usize)
        requires
            old(self).wf(),
            scene_idx < old(self).scenes@.len(),
        ensures
            final(self).wf(),
            final(self).tracks@ == old(self).tracks@,
            final(self).scenes@ == old(self).scenes@,
            final(self).next_clip_id == old(self).next_clip_id,
            final(self).selected_slot == old(self).selected_slot,
            final(self).grid@.len() == old(self).grid@.len(),
            forall|t: int| 0 <= t < old(self).grid@.len() ==> {
                let row = #[trigger] final(self).grid@[t]@;
                if old(self).slot(t, scene_idx as int).clip is Some {
                    old(self).row_restated(t, row, |st: SlotState, sc: int| row_state_on_start(st, sc, scene_idx as int))
                } else {
                    row == old(self).grid@[t]@
                }
            },
    {
        let nt = self.tracks.len();
        let ns = self.scenes.len();
        let mut t: usize = 0;
        while t < nt
            invariant
                t <= nt,
                nt == old(self).tracks@.len(),
                ns == old(self).scenes@.len(),
                scene_idx < ns,
                old(self).wf(),
                self.tracks@ == old(self).tracks@,
                self.scenes@ == old(self).scenes@,
                self.next_clip_id == old(self).next_clip_id,
                self.selected_slot == old(self).selected_slot,
                self.grid@.len() == nt,
                forall|i: int| t <= i < nt ==> #[trigger] self.grid@[i] == old(self).grid@[i],
                forall|i: int| 0 <= i < t ==> {
                    let row = #[trigger] self.grid@[i]@;
                    if old(self).slot(i, scene_idx as int).clip is Some {
                        old(self).row_restated(i, row, |st: SlotState, sc: int| row_state_on_start(st, sc, scene_idx as int))
                    } else {
                        row == old(self).grid@[i]@
                    }
                },
            decreases nt - t,
        {
            if self.grid[t][scene_idx].clip.is_some() {
                let ghost old_row = self.grid@[t as int]@;
                let mut sc: usize = 0;
                while sc < ns
                    invariant
                        sc <= ns,
                        t < nt,
                        ns == old(self).scenes@.len(),
                        nt == old(self).tracks@.len(),
                        scene_idx < ns,
                        old(self).wf(),
                        self.tracks@ == old(self).tracks@,
                        self.scenes@ == old(self).scenes@,
                        self.next_clip_id == old(self).next_clip_id,
                        self.selected_slot == old(self).selected_slot,
                        self.grid@.len() == nt,
                        old_row == old(self).grid@[t as int]@,
                        old_row.len() == ns,
                        forall|i: int| 0 <= i < nt && i != t ==> #[trigger] self.grid@[i] == old(self).grid@[i]
                            || (i < t && self.grid@[i] == self.grid@[i]),
                        forall|i: int| 0 <= i < t ==> {
                            let row = #[trigger] self.grid@[i]@;
                            if old(self).slot(i, scene_idx as int).clip is Some {
                                old(self).row_restated(i, row, |st: SlotState, c: int| row_state_on_start(st, c, scene_idx as int))
                            } else {
                                row == old(self).grid@[i]@
                            }
                        },
                        forall|i: int| t < i < nt ==> #[trigger] self.grid@[i] == old(self).grid@[i],
                        self.grid@[t as int]@.len() == ns,
                        forall|j: int| 0 <= j < ns ==> #[trigger] self.grid@[t as int]@[j] == with_state(old_row[j],
                            if j < sc && j != scene_idx && old_row[j].state == SlotState::Playing {
                                SlotState::Stopped
                            } else {
                                old_row[j].state
                            }),
                    decreases ns - sc,
                {
                    if sc != scene_idx && self.grid[t][sc].state == SlotState::Playing {
                        self.grid[t][sc].state = SlotState::Stopped;
                    }
                    sc += 1;
                }
                self.grid[t][scene_idx].state = SlotState::Playing;
                assert(old(self).row_restated(t as int, self.grid@[t as int]@,
                    |st: SlotState, c: int| row_state_on_start(st, c, scene_idx as int)));
            }
            t += 1;
        }
    }
}

impl<D: Clone, V> SessionMatrixState<D, V> {
    /// Copies a pad into the clipboard (out-of-range pads are ignored).
    pub fn copy_slot(&self, track_idx: usize, scene_idx: usize, clipboard: &mut MatrixClipboard<D>)
        ensures
            (track_idx < self.grid@.len() && scene_idx < self.grid@[track_idx as int]@.len()) ==> (
                final(clipboard).copied_slot is Some
                && slot_copied(self.slot(track_idx as int, scene_idx as int), final(clipboard).copied_slot->0)),
            !(track_idx < self.grid@.len() && scene_idx < self.grid@[track_idx as int]@.len()) ==>
                final(clipboard).copied_slot == old(clipboard).copied_slot,
    {
        if track_idx < self.grid.len() && scene_idx < self.grid[track_idx].len() {
            clipboard.copy(&self.grid[track_idx][scene_idx]);
        }
    }

    /// Empties a pad (out-of-range pads are ignored).
    pub fn delete_slot(&mut self, track_idx: usize, scene_idx: usize)
        requires
            old(self).wf(),
        ensures
            final(self).wf(),
            final(self).tracks@ == old(self).tracks@,
            final(self).scenes@ == old(self).scenes@,
            final(self).next_clip_id == old(self).next_clip_id,
            final(self).selected_slot == old(self).selected_slot,
            final(self).grid@.len() == old(self).grid@.len(),
            forall|t: int, s: int| 0 <= t < old(self).grid@.len() && 0 <= s < old(self).scenes@.len() ==>
                if t == track_idx && s == scene_idx {
                    (#[trigger] final(self).grid@[t]@[s]).is_empty_slot()
                } else {
                    final(self).grid@[t]@[s] == old(self).grid@[t]@[s]
                },
    {
        if track_idx < self.grid.len() && scene_idx < self.grid[track_idx].len() {
            self.grid[track_idx].set(scene_idx, MatrixSlot::empty());
        }
    }

    /// Copies a pad into the clipboard, then empties it.
    pub fn cut_slot(&mut self, track_idx: usize, scene_idx: usize, clipboard: &mut MatrixClipboard<D>)
        requires
            old(self).wf(),
        ensures
            final(self).wf(),
            (track_idx < old(self).grid@.len() && scene_idx < old(self).scenes@.len()) ==> (
                final(clipboard).copied_slot is Some
                && slot_copied(old(self).slot(track_idx as int, scene_idx as int), final(clipboard).copied_slot->0)),
            final(self).tracks@ == old(self).tracks@,
            final(self).scenes@ == old(self).scenes@,
            final(self).next_clip_id == old(self).next_clip_id,
            final(self).selected_slot == old(self).selected_slot,
            final(self).grid@.len() == old(self).grid@.len(),
            forall|t: int, s: int| 0 <= t < old(self).grid@.len() && 0 <= s < old(self).scenes@.len() ==>
                if t == track_idx && s == scene_idx {
                    (#[trigger] final(self).grid@[t]@[s]).is_empty_slot()
                } else {
                    final(self).grid@[t]@[s] == old(self).grid@[t]@[s]
                },
    {
        self.copy_slot(track_idx, scene_idx, clipboard);
        self.delete_slot(track_idx, scene_idx);
    }

    /// Pastes the clipboard onto a pad: the copy is stopped and its clip
    /// gets a fresh id, which the engine must load. An empty clipboard
    /// changes nothing.
    pub fn paste_slot(&mut self, track_idx: usize, scene_idx: usize, clipboard: &MatrixClipboard<D>) -> (load: Option<LoadRequest>)
        requires
            old(self).wf(),
            track_idx < old(self).tracks@.len(),
            scene_idx < old(self).scenes@.len(),
            clipboard.copied_slot is Some ==> old(self).next_clip_id < usize::MAX,
        ensures
            final(self).wf(),
            final(self).tracks@ == old(self).tracks@,
            final(self).scenes@ == old(self).scenes@,
            final(self).selected_slot == old(self).selected_slot,
            final(self).grid@.len() == old(self).grid@.len(),
            forall|t: int, s: int| 0 <= t < old(self).grid@.len() && 0 <= s < old(self).scenes@.len()
                && !(t == track_idx && s == scene_idx) ==> #[trigger] final(self).grid@[t]@[s] == old(self).grid@[t]@[s],
            match clipboard.copied_slot {
                None => load is None && final(self).next_clip_id == old(self).next_clip_id
                    && final(self).grid@ == old(self).grid@,
                Some(src) => {
                    let pasted = final(self).slot(track_idx as int, scene_idx as int);
                    &&& final(self).next_clip_id == old(self).next_clip_id + 1
                    &&& pasted.state == SlotState::Stopped
                    &&& pasted.clip is Some == src.clip is Some
                    &&& (src.clip is Some ==> {
                        let a = src.clip->0;
                        let b = pasted.clip->0;
                        &&& b.id == old(self).next_clip_id
                        &&& b.loop_start == a.loop_start && b.loop_end == a.loop_end && b.loop_enabled == a.loop_enabled
                        &&& vstd::pervasive::cloned(a.data, b.data)
                    })
                    &&& load == (if src.clip is Some {
                        Some(LoadRequest { clip_id: old(self).next_clip_id, track_index: track_idx, scene_index: scene_idx })
                    } else {
                        None
                    })
                },
            },
    {
        match &clipboard.copied_slot {
            None => None,
            Some(copied) => {
                let mut target_slot = copied.clone();
                target_slot.state = SlotState::Stopped;
                let next_id = self.next_clip_id;
                self.next_clip_id = self.next_clip_id + 1;
                let mut load = None;
                if let Some(clip) = target_slot.clip.as_mut() {
                    clip.id = next_id;
                    load = Some(LoadRequest { clip_id: next_id, track_index: track_idx, scene_index: scene_idx });
                }
                self.grid[track_idx].set(scene_idx, target_slot);
                load
            },
        }
    }

    /// Duplicates a pad into the next scene (when there is one): the copy
    /// keeps the pad's state and its clip gets a fresh id to load.
    pub fn duplicate_slot(&mut self, track_idx: usize, scene_idx: usize) -> (load: Option<LoadRequest>)
        requires
            old(self).wf(),
            track_idx < old(self).tracks@.len(),
            scene_idx < old(self).scenes@.len(),
            scene_idx + 1 < old(self).scenes@.len() ==> old(self).next_clip_id < usize::MAX,
        ensures
            final(self).wf(),
            final(self).tracks@ == old(self).tracks@,
            final(self).scenes@ == old(self).scenes@,
            final(self).selected_slot == old(self).selected_slot,
            final(self).grid@.len() == old(self).grid@.len(),
            scene_idx + 1 >= old(self).scenes@.len() ==> load is None && final(self).next_clip_id == old(self).next_clip_id
                && final(self).grid@ == old(self).grid@,
            scene_idx + 1 < old(self).scenes@.len() ==> {
                let target = scene_idx + 1;
                let src = old(self).slot(track_idx as int, scene_idx as int);
                let dup = final(self).slot(track_idx as int, target);
                &&& final(self).next_clip_id == old(self).next_clip_id + 1
                &&& (forall|t: int, s: int| 0 <= t < old(self).grid@.len() && 0 <= s < old(self).scenes@.len()
                    && !(t == track_idx && s == target) ==> #[trigger] final(self).grid@[t]@[s] == old(self).grid@[t]@[s])
                &&& dup.state == src.state
                &&& dup.clip is Some == src.clip is Some
                &&& (src.clip is Some ==> {
                    let a = src.clip->0;
                    let b = dup.clip->0;
                    &&& b.id == old(self).next_clip_id
                    &&& b.loop_start == a.loop_start && b.loop_end == a.loop_end && b.loop_enabled == a.loop_enabled
                    &&& vstd::pervasive::cloned(a.data, b.data)
                })
                &&& load == (if src.clip is Some {
                    Some(LoadRequest { clip_id: old(self).next_clip_id, track_index: track_idx, scene_index: target as usize })
                } else {
                    None
                })
            },
    {
        let last = self.scenes.len() - 1;
        let target_scene = if scene_idx + 1 < last { scene_idx + 1 } else { last };
        if target_scene != scene_idx {
            let mut clip_copy = self.grid[track_idx][scene_idx].clone();
            let next_id = self.next_clip_id;
            self.next_clip_id = self.next_clip_id + 1;
            let mut load = None;
            if let Some(clip) = clip_copy.clip.as_mut() {
                clip.id = next_id;
                load = Some(LoadRequest { clip_id: next_id, track_index: track_idx, scene_index: target_scene });
            }
            self.grid[track_idx].set(target_scene, clip_copy);
            load
        } else {
            None
        }
    }
}

impl<D, V> SessionMatrixState<D, V> {
    /// Whether some pad is playing (the view then keeps repainting).
    pub fn any_playing(&self) -> (b: bool)
        ensures
            b == exists|t: int, s: int| 0 <= t < self.grid@.len() && 0 <= s < self.grid@[t]@.len()
                && (#[trigger] self.grid@[t]@[s]).state == SlotState::Playing,
    {
        let mut t: usize = 0;
        while t < self.grid.len()
            invariant
                t <= self.grid@.len(),
                forall|a: int, b: int| 0 <= a < t && 0 <= b < self.grid@[a]@.len()
                    ==> (#[trigger] self.grid@[a]@[b]).state != SlotState::Playing,
            decreases self.grid@.len() - t,
        {
            let mut s: usize = 0;
            while s < self.grid[t].len()
                invariant
                    t < self.grid@.len(),
                    s <= self.grid@[t as int]@.len(),
                    forall|b: int| 0 <= b < s ==> (#[trigger] self.grid@[t as int]@[b]).state != SlotState::Playing,
                decreases self.grid@[t as int]@.len() - s,
            {
                if self.grid[t][s].state == SlotState::Playing {
                    return true;
                }
                s += 1;
            }
            t += 1;
        }
        false
    }
}

impl<D, V> SessionMatrixState<D, V> {
    /// Puts a newly loaded clip on a pad: it gets a fresh id and no loop,
    /// the pad shows it stopped, and the engine must load it.
    pub fn load_into_slot(&mut self, track_idx: usize, scene_idx: usize, data: D) -> (load: LoadRequest)
        requires
            old(self).wf(),
            track_idx < old(self).tracks@.len(),
            scene_idx < old(self).scenes@.len(),
            old(self).next_clip_id < usize::MAX,
        ensures
            final(self).wf(),
            final(self).tracks@ == old(self).tracks@,
            final(self).scenes@ == old(self).scenes@,
            final(self).selected_slot == old(self).selected_slot,
            final(self).next_clip_id == old(self).next_clip_id + 1,
            final(self).grid@.len() == old(self).grid@.len(),
            forall|t: int, s: int| 0 <= t < old(self).grid@.len() && 0 <= s < old(self).scenes@.len()
                && !(t == track_idx && s == scene_idx) ==> #[trigger] final(self).grid@[t]@[s] == old(self).grid@[t]@[s],
            final(self).slot(track_idx as int, scene_idx as int) == (MatrixSlot {
                state: SlotState::Stopped,
                clip: Some(MatrixClip { id: old(self).next_clip_id, loop_start: 0, loop_end: 0, loop_enabled: false, data }),
            }),
            load == (LoadRequest { clip_id: old(self).next_clip_id, track_index: track_idx, scene_index: scene_idx }),
    {
        let new_id = self.next_clip_id;
        self.next_clip_id = self.next_clip_id + 1;
        let slot = MatrixSlot {
            state: SlotState::Stopped,
            clip: Some(MatrixClip { id: new_id, loop_start: 0, loop_end: 0, loop_enabled: false, data }),
        };
        self.grid[track_idx].set(scene_idx, slot);
        LoadRequest { clip_id: new_id, track_index: track_idx, scene_index: scene_idx }
    }
}

/// Pads of a row that went from `Playing` to `Stopped`, among the first `n`.
pub open spec fn row_stops<D>(before: Seq<MatrixSlot<D>>, after: Seq<MatrixSlot<D>>, n: int) -> nat
    decreases n,
{
    if n <= 0 {
        0
    } else {
        row_stops(before, after, n - 1)
            + if before[n - 1].state == SlotState::Playing && after[n - 1].state == SlotState::Stopped { 1nat } else { 0nat }
    }
}

/// Pads that went from `Playing` to `Stopped` in the first `n` rows.
pub open spec fn grid_stops<D>(before: Seq<Vec<MatrixSlot<D>>>, after: Seq<Vec<MatrixSlot<D>>>, n: int) -> nat
    decreases n,
{
    if n <= 0 {
        0
    } else {
        grid_stops(before, after, n - 1) + row_stops(before[n - 1]@, after[n - 1]@, before[n - 1]@.len() as int)
    }
}

proof fn lemma_row_stops_bound<D>(before: Seq<MatrixSlot<D>>, after: Seq<MatrixSlot<D>>, n: int)
    requires
        0 <= n,
    ensures
        row_stops(before, after, n) <= n,
    decreases n,
{
    if n > 0 {
        lemma_row_stops_bound(before, after, n - 1);
    }
}

proof fn lemma_row_stops_ext<D>(before: Seq<MatrixSlot<D>>, a1: Seq<MatrixSlot<D>>, a2: Seq<MatrixSlot<D>>, n: int)
    requires
        0 <= n <= a1.len(),
        n <= a2.len(),
        forall|j: int| 0 <= j < n ==> #[trigger] a1[j] == a2[j],
    ensures
        row_stops(before, a1, n) == row_stops(before, a2, n),
    decreases n,
{
    if n > 0 {
        lemma_row_stops_ext(before, a1, a2, n - 1);
    }
}

proof fn lemma_grid_stops_ext<D>(before: Seq<Vec<MatrixSlot<D>>>, a1: Seq<Vec<MatrixSlot<D>>>, a2: Seq<Vec<MatrixSlot<D>>>, n: int)
    requires
        0 <= n <= a1.len(),
        n <= a2.len(),
        forall|j: int| 0 <= j < n ==> #[trigger] a1[j] == a2[j],
    ensures
        grid_stops(before, a1, n) == grid_stops(before, a2, n),
    decreases n,
{
    if n > 0 {
        lemma_grid_stops_ext(before, a1, a2, n - 1);
    }
}

/// Turns off every playing pad whose voice the engine reports inactive
/// (`is_active(track, scene)` false). Returns how many were turned off.
pub fn poll_finished_voices<D, V, F: Fn(usize, usize) -> bool>(state: &mut SessionMatrixState<D, V>, is_active: F) -> (deactivated: usize)
    requires
        old(state).wf(),
        old(state).tracks@.len() * old(state).scenes@.len() <= usize::MAX,
        forall|t: usize, s: usize| is_active.requires((t, s)),
    ensures
        final(state).wf(),
        final(state).tracks@ == old(state).tracks@,
        final(state).scenes@ == old(state).scenes@,
        final(state).next_clip_id == old(state).next_clip_id,
        final(state).selected_slot == old(state).selected_slot,
        final(state).grid@.len() == old(state).grid@.len(),
        forall|t: int, s: int| 0 <= t < old(state).tracks@.len() && 0 <= s < old(state).scenes@.len() ==> {
            let before = old(state).slot(t, s);
            let after = #[trigger] final(state).slot(t, s);
            if before.state == SlotState::Playing {
                (after == with_state(before, SlotState::Stopped) && is_active.ensures((t as usize, s as usize), false))
                || (after == before && is_active.ensures((t as usize, s as usize), true))
            } else {
                after == before
            }
        },
        deactivated == grid_stops(old(state).grid@, final(state).grid@, old(state).grid@.len() as int),
{
    let nt = state.tracks.len();
    let ns = state.scenes.len();
    let ghost old_grid = state.grid@;
    let mut deactivated: usize = 0;
    let mut t: usize = 0;
    while t < nt
        invariant
            t <= nt,
            nt == old(state).tracks@.len(),
            ns == old(state).scenes@.len(),
            nt * ns <= usize::MAX,
            old(state).wf(),
            old_grid == old(state).grid@,
            forall|a: usize, b: usize| is_active.requires((a, b)),
            state.tracks@ == old(state).tracks@,
            state.scenes@ == old(state).scenes@,
            state.next_clip_id == old(state).next_clip_id,
            state.selected_slot == old(state).selected_slot,
            state.grid@.len() == nt,
            forall|i: int| 0 <= i < nt ==> (#[trigger] state.grid@[i])@.len() == ns,
            forall|i: int| t <= i < nt ==> #[trigger] state.grid@[i] == old_grid[i],
            forall|i: int, s: int| 0 <= i < t && 0 <= s < ns ==> {
                let before = old_grid[i]@[s];
                let after = #[trigger] state.grid@[i]@[s];
                if before.state == SlotState::Playing {
                    (after == with_state(before, SlotState::Stopped) && is_active.ensures((i as usize, s as usize), false))
                    || (after == before && is_active.ensures((i as usize, s as usize), true))
                } else {
                    after == before
                }
            },
            deactivated == grid_stops(old_grid, state.grid@, t as int),
            deactivated <= t * ns,
        decreases nt - t,
    {
        let ghost row_before = old_grid[t as int]@;
        let ghost grid_at_row_start = state.grid@;
        let mut in_row: usize = 0;
        let mut sc: usize = 0;
        while sc < ns
            invariant
                sc <= ns,
                t < nt,
                nt == old(state).tracks@.len(),
                ns == old(state).scenes@.len(),
                old(state).wf(),
                old_grid == old(state).grid@,
                row_before == old_grid[t as int]@,
                forall|a: usize, b: usize| is_active.requires((a, b)),
                state.tracks@ == old(state).tracks@,
                state.scenes@ == old(state).scenes@,
                state.next_clip_id == old(state).next_clip_id,
                state.selected_slot == old(state).selected_slot,
                state.grid@.len() == nt,
                forall|i: int| 0 <= i < nt ==> (#[trigger] state.grid@[i])@.len() == ns,
                forall|i: int| 0 <= i < nt && i != t ==> #[trigger] state.grid@[i] == grid_at_row_start[i],
                forall|s: int| sc <= s < ns ==> #[trigger] state.grid@[t as int]@[s] == row_before[s],
                forall|s: int| 0 <= s < sc ==> {
                    let before = row_before[s];
                    let after = #[trigger] state.grid@[t as int]@[s];
                    if before.state == SlotState::Playing {
                        (after == with_state(before, SlotState::Stopped) && is_active.ensures((t, s as usize), false))
                        || (after == before && is_active.ensures((t, s as usize), true))
                    } else {
                        after == before
                    }
                },
                in_row == row_stops(row_before, state.grid@[t as int]@, sc as int),
                in_row <= sc,
            decreases ns - sc,
        {
            let ghost row_prev = state.grid@[t as int]@;
            if state.grid[t][sc].state == SlotState::Playing {
                let active = is_active(t, sc);
                if !active {
                    state.grid[t][sc].state = SlotState::Stopped;
                    in_row += 1;
                }
            }
            proof {
                lemma_row_stops_ext(row_before, row_prev, state.grid@[t as int]@, sc as int);
            }
            sc += 1;
        }
        proof {
            lemma_row_stops_bound(row_before, state.grid@[t as int]@, ns as int);
            lemma_grid_stops_ext(old_grid, grid_at_row_start, state.grid@, t as int);
            assert(grid_stops(old_grid, state.grid@, t + 1) == grid_stops(old_grid, state.grid@, t as int)
                + row_stops(row_before, state.grid@[t as int]@, ns as int));
            assert((t + 1) * ns == t * ns + ns) by (nonlinear_arith);
            assert((t + 1) * ns <= nt * ns) by (nonlinear_arith)
                requires t + 1 <= nt, ns >= 0;
        }
        deactivated += in_row;
        t += 1;
    }
    deactivated
}

/// Polls the engine on its linear clock and turns off the pads whose
/// voices have finished. Returns how many were turned off.
pub fn poll_engine_slots<D, V, S>(state: &mut SessionMatrixState<D, V>, engine: &VoiceEngine<S>) -> (deactivated: usize)
    requires
        old(state).wf(),
        old(state).tracks@.len() * old(state).scenes@.len() <= usize::MAX,
    ensures
        final(state).wf(),
        final(state).tracks@ == old(state).tracks@,
        final(state).scenes@ == old(state).scenes@,
        final(state).next_clip_id == old(state).next_clip_id,
        final(state).selected_slot == old(state).selected_slot,
        final(state).grid@.len() == old(state).grid@.len(),
        forall|t: int, s: int| 0 <= t < old(state).tracks@.len() && 0 <= s < old(state).scenes@.len() ==> {
            let before = old(state).slot(t, s);
            #[trigger] final(state).slot(t, s) == if before.state == SlotState::Playing
                && !engine.spec_voice_active(t as usize, s as usize) {
                with_state(before, SlotState::Stopped)
            } else {
                before
            }
        },
        deactivated == grid_stops(old(state).grid@, final(state).grid@, old(state).grid@.len() as int),
{
    let n = poll_finished_voices(state, |t: usize, s: usize| -> (b: bool)
        ensures
            b == engine.spec_voice_active(t, s),
        { engine.voice_active(t, s) });
    n
}

/// Starting a stopped pad leaves it the only playing pad of its track.
pub proof fn lemma_pad_start_exclusive<D, V>(before: SessionMatrixState<D, V>, row: Seq<MatrixSlot<D>>, t: int, s: int)
    requires
        before.wf(),
        0 <= t < before.tracks@.len(),
        0 <= s < before.scenes@.len(),
        before.row_restated(t, row, |st: SlotState, sc: int| row_state_on_start(st, sc, s)),
    ensures
        forall|sc: int| 0 <= sc < row.len() ==> ((#[trigger] row[sc]).state == SlotState::Playing <==> sc == s),
{
}

/// Polling the engine twice without it moving on: the second poll turns
/// nothing off.
pub proof fn lemma_engine_poll_settles<D, V, S>(first: SessionMatrixState<D, V>, second: SessionMatrixState<D, V>,
    third: SessionMatrixState<D, V>, engine: VoiceEngine<S>)
    requires
        first.wf(),
        second.wf(),
        third.wf(),
        second.tracks@ == first.tracks@ && second.scenes@ == first.scenes@,
        third.tracks@ == second.tracks@ && third.scenes@ == second.scenes@,
        forall|t: int, s: int| 0 <= t < first.tracks@.len() && 0 <= s < first.scenes@.len() ==>
            #[trigger] second.slot(t, s) == if first.slot(t, s).state == SlotState::Playing
                && !engine.spec_voice_active(t as usize, s as usize) {
                with_state(first.slot(t, s), SlotState::Stopped)
            } else {
                first.slot(t, s)
            },
        forall|t: int, s: int| 0 <= t < second.tracks@.len() && 0 <= s < second.scenes@.len() ==>
            #[trigger] third.slot(t, s) == if second.slot(t, s).state == SlotState::Playing
                && !engine.spec_voice_active(t as usize, s as usize) {
                with_state(second.slot(t, s), SlotState::Stopped)
            } else {
                second.slot(t, s)
            },
    ensures
        grid_stops(second.grid@, third.grid@, second.grid@.len() as int) == 0,
        forall|t: int, s: int| 0 <= t < second.tracks@.len() && 0 <= s < second.scenes@.len() ==>
            #[trigger] third.slot(t, s) == second.slot(t, s),
{
    assert forall|t: int, s: int| 0 <= t < second.tracks@.len() && 0 <= s < second.scenes@.len() implies
        #[trigger] third.slot(t, s) == second.slot(t, s) by {
        assert(second.slot(t, s) == if first.slot(t, s).state == SlotState::Playing
                && !engine.spec_voice_active(t as usize, s as usize) {
                with_state(first.slot(t, s), SlotState::Stopped)
            } else {
                first.slot(t, s)
            });
    }
    assert forall|t: int, s: int| 0 <= t < second.grid@.len() && 0 <= s < second.scenes@.len() implies
        #[trigger] third.grid@[t]@[s] == second.grid@[t]@[s] by {
        assert(third.slot(t, s) == second.slot(t, s));
    }
    lemma_grid_stops_zero(second.grid@, third.grid@, second.grid@.len() as int, second.scenes@.len() as int);
}

proof fn lemma_row_stops_zero<D>(before: Seq<MatrixSlot<D>>, after: Seq<MatrixSlot<D>>, n: int)
    requires
        0 <= n <= before.len(),
        n <= after.len(),
        forall|j: int| 0 <= j < n ==> #[trigger] after[j] == before[j],
    ensures
        row_stops(before, after, n) == 0,
    decreases n,
{
    if n > 0 {
        lemma_row_stops_zero(before, after, n - 1);
    }
}

proof fn lemma_grid_stops_zero<D>(before: Seq<Vec<MatrixSlot<D>>>, after: Seq<Vec<MatrixSlot<D>>>, n: int, width: int)
    requires
        0 <= n <= before.len(),
        n <= after.len(),
        forall|t: int| 0 <= t < n ==> (#[trigger] before[t])@.len() == width && after[t]@.len() == width,
        forall|t: int, s: int| 0 <= t < n && 0 <= s < width ==> #[trigger] after[t]@[s] == before[t]@[s],
    ensures
        grid_stops(before, after, n) == 0,
    decreases n,
{
    if n > 0 {
        lemma_grid_stops_zero(before, after, n - 1, width);
        let b = before[n - 1]@;
        let a = after[n - 1]@;
        assert forall|j: int| 0 <= j < b.len() implies #[trigger] a[j] == b[j] by {
            assert(after[n - 1]@[j] == before[n - 1]@[j]);
        }
        lemma_row_stops_zero(b, a, b.len() as int);
    }
}

} // verus!
