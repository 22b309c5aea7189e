//! Arrangement timeline arithmetic: grid snapping, the playhead inside the
//! time selection, and the guards on the global loop selection.
use vstd::prelude::*;
use crate::transport::{DEFAULT_PPQN, wrap_into};

verus! {

/// Where a playlist view is embedded: the main arranger drives the engine;
/// a clip editor only edits its own clip.
#[derive(Clone, Copy, PartialEq, Eq)]
pub enum ViewMode<'a> {
    Arranger,
    ClipEditor { title: &'a str },
}

impl<'a> ViewMode<'a> {
    /// Only the arranger sends its clips to the engine.
    pub fn drives_engine(&self) -> (b: bool)
        ensures
            b == (*self is Arranger),
    {
        match self {
            ViewMode::Arranger => true,
            ViewMode::ClipEditor { .. } => false,
        }
    }

    /// Only the arranger lets tracks be added or removed.
    pub fn allows_track_add_remove(&self) -> (b: bool)
        ensures
            b == (*self is Arranger),
    {
        match self {
            ViewMode::Arranger => true,
            ViewMode::ClipEditor { .. } => false,
        }
    }

    /// The header text: a fixed title for the arranger, the clip's title in
    /// the editor.
    pub fn header_label(&self) -> (label: String)
        ensures
            match *self {
                ViewMode::Arranger => label@ == "PLAYLIST / ARRANGEMENT"@,
                ViewMode::ClipEditor { title } => label@ == title@,
            },
    {
        match self {
            ViewMode::Arranger => "PLAYLIST / ARRANGEMENT".to_owned(),
            ViewMode::ClipEditor { title } => (*title).to_owned(),
        }
    }
}

/// The grid multiple nearest to `ticks` (ties go up), saturating at the top
/// of the range; `ticks` itself when the grid is 0 (snap off).
pub open spec fn spec_snap(ticks: u64, grid_ticks: u64) -> u64 {
    if grid_ticks == 0 {
        ticks
    } else {
        let k = ticks / grid_ticks + if 2 * (ticks % grid_ticks) >= grid_ticks { 1int } else { 0int };
        if k * grid_ticks > u64::MAX { u64::MAX } else { (k * grid_ticks) as u64 }
    }
}

/// Snaps `ticks` to the active grid: `round(ticks / grid) * grid`.
pub fn snap_ticks(ticks: u64, grid_ticks: u64) -> (snapped: u64)
    ensures
        snapped == spec_snap(ticks, grid_ticks),
{
    if grid_ticks == 0 {
        return ticks;
    }
    let q = ticks / grid_ticks;
    let r = ticks % grid_ticks;
    assert(q * grid_ticks + r == ticks) by (nonlinear_arith)
        requires q == ticks / grid_ticks, r == ticks % grid_ticks, grid_ticks > 0;
    assert(q * grid_ticks <= u64::MAX) by (nonlinear_arith)
        requires q * grid_ticks + r == ticks, r >= 0, ticks <= u64::MAX;
    if r >= grid_ticks - r {
        assert(q < u64::MAX) by (nonlinear_arith)
            requires q * grid_ticks <= u64::MAX, grid_ticks >= 2, q >= 0;
    }
    let k = if r >= grid_ticks - r { q + 1 } else { q };
    saturating_mul_u64(k, grid_ticks)
}

/// A snapped position is a grid multiple at most half a grid step away
/// (ties rounding up), as long as it did not saturate.
pub proof fn lemma_snap_is_nearest_multiple(ticks: u64, grid_ticks: u64)
    requires
        grid_ticks > 0,
        spec_snap(ticks, grid_ticks) < u64::MAX,
    ensures
        spec_snap(ticks, grid_ticks) % grid_ticks == 0,
        2 * (ticks - spec_snap(ticks, grid_ticks)) < grid_ticks,
        2 * (spec_snap(ticks, grid_ticks) - ticks) <= grid_ticks,
{
    let q = ticks / grid_ticks;
    let r = ticks % grid_ticks;
    let k = q + if 2 * r >= grid_ticks { 1int } else { 0int };
    assert(q * grid_ticks + r == ticks) by (nonlinear_arith)
        requires q == ticks / grid_ticks, r == ticks % grid_ticks, grid_ticks > 0;
    assert(k * grid_ticks == q * grid_ticks + if 2 * r >= grid_ticks { grid_ticks as int } else { 0int }) by (nonlinear_arith)
        requires k == q + if 2 * r >= grid_ticks { 1int } else { 0int };
    vstd::arithmetic::div_mod::lemma_mod_multiples_basic(k, grid_ticks as int);
}

/// Snapping keeps order: a later tick never snaps before an earlier one.
pub proof fn lemma_snap_monotonic(a: u64, b: u64, grid_ticks: u64)
    requires
        a <= b,
    ensures
        spec_snap(a, grid_ticks) <= spec_snap(b, grid_ticks),
{
    if grid_ticks > 0 {
        let g = grid_ticks as int;
        let qa = a as int / g;
        let ra = a as int % g;
        let qb = b as int / g;
        let rb = b as int % g;
        assert(qa * g + ra == a) by (nonlinear_arith)
            requires qa == a as int / g, ra == a as int % g, g > 0;
        assert(qb * g + rb == b) by (nonlinear_arith)
            requires qb == b as int / g, rb == b as int % g, g > 0;
        assert(qa <= qb) by (nonlinear_arith)
            requires qa * g + ra <= qb * g + rb, 0 <= ra < g, 0 <= rb < g, g > 0;
        assert(qa < qb || ra <= rb);
        let ka = qa + if 2 * ra >= g { 1int } else { 0int };
        let kb = qb + if 2 * rb >= g { 1int } else { 0int };
        assert(ka <= kb);
        assert(ka * g <= kb * g) by (nonlinear_arith)
            requires ka <= kb, g > 0;
    }
}

/// The playhead shown inside the time selection: with an enabled, valid
/// region a tick past its end wraps back in; otherwise it is shown as is.
pub fn loop_display_tick(current_tick: u64, loop_start_ticks: u64, loop_end_ticks: u64, loop_enabled: bool) -> (shown: u64)
    ensures
        shown == wrap_into(current_tick, loop_start_ticks, loop_end_ticks, loop_enabled),
{
    if !loop_enabled {
        return current_tick;
    }
    let len = loop_end_ticks.saturating_sub(loop_start_ticks);
    if len == 0 || loop_end_ticks <= loop_start_ticks {
        return current_tick;
    }
    if current_tick < loop_start_ticks {
        return current_tick;
    }
    if current_tick >= loop_end_ticks {
        return loop_start_ticks + ((current_tick - loop_start_ticks) % len);
    }
    current_tick
}

/// Which handle of the loop selection is being dragged.
#[derive(Clone, Copy, Debug, PartialEq, Eq, Structural)]
pub enum LoopDragHandle {
    Idle,
    Left,
    Right,
    Body,
}

/// The playlist's loop selection (time selection) in ticks, with the
/// transient drag preview. Only the confirmed region feeds the transport.
#[derive(Clone, Copy, Debug)]
pub struct PlaylistLoop {
    pub ppqn: u64,
    pub loop_start_ticks: u64,
    pub loop_end_ticks: u64,
    pub loop_region_active: bool,
    pub loop_dragging: bool,
    pub loop_preview_start_ticks: u64,
    pub loop_preview_end_ticks: u64,
    pub loop_preview_active: bool,
    pub loop_drag_handle: LoopDragHandle,
    /// Set on the frame a loop drag ends: the region is then sent on.
    pub loop_drag_completed_this_frame: bool,
}

pub open spec fn sat_add(a: u64, b: u64) -> u64 {
    if a + b > u64::MAX { u64::MAX } else { (a + b) as u64 }
}

pub open spec fn sat_mul(a: u64, b: u64) -> u64 {
    if a * b > u64::MAX { u64::MAX } else { (a * b) as u64 }
}

/// `a * b`, saturating at `u64::MAX`.
pub fn saturating_mul_u64(a: u64, b: u64) -> (r: u64)
    ensures
        r == sat_mul(a, b),
{
    match a.checked_mul(b) {
        Some(p) => p,
        None => u64::MAX,
    }
}

/// End of the last clip over `(start_tick, duration_ticks)` spans, each end
/// saturating; 0 without clips.
pub open spec fn spec_project_end(spans: Seq<(u64, u64)>) -> u64
    decreases spans.len(),
{
    if spans.len() == 0 {
        0
    } else {
        let rest = spec_project_end(spans.drop_last());
        let e = sat_add(spans.last().0, spans.last().1);
        if e > rest { e } else { rest }
    }
}

/// End tick of the project: the furthest clip end (0 without clips).
pub fn total_project_ticks(spans: &Vec<(u64, u64)>) -> (end: u64)
    ensures
        end == spec_project_end(spans@),
        forall|i: int| 0 <= i < spans@.len() ==> sat_add(#[trigger] spans@[i].0, spans@[i].1) <= end,
        spans@.len() > 0 ==> exists|i: int| 0 <= i < spans@.len() && sat_add(#[trigger] spans@[i].0, spans@[i].1) == end,
{
    let mut best: u64 = 0;
    let mut i: usize = 0;
    while i < spans.len()
        invariant
            i <= spans@.len(),
            best == spec_project_end(spans@.take(i as int)),
            forall|j: int| 0 <= j < i ==> sat_add(#[trigger] spans@[j].0, spans@[j].1) <= best,
            i > 0 ==> exists|j: int| 0 <= j < i && sat_add(#[trigger] spans@[j].0, spans@[j].1) == best,
        decreases spans@.len() - i,
    {
        let (s, d) = spans[i];
        let e = s.saturating_add(d);
        assert(spans@.take(i + 1).drop_last() =~= spans@.take(i as int));
        if e > best {
            best = e;
        }
        i += 1;
    }
    assert(spans@.take(spans@.len() as int) =~= spans@);
    best
}

impl PlaylistLoop {
    pub open spec fn unit(self) -> u64 {
        if self.ppqn == 0 { 1 } else { self.ppqn }
    }

    pub open spec fn region_valid(self) -> bool {
        self.loop_region_active && self.loop_end_ticks > self.loop_start_ticks
    }

    /// The selection after the pre-send guard: an empty or reversed region
    /// becomes one bar (4 beats) long, one shorter than a beat becomes one
    /// beat long; a non-empty result is marked active.
    pub open spec fn sanitized(self) -> PlaylistLoop {
        let unit = self.unit();
        let start = self.loop_start_ticks;
        let e1 = if self.loop_end_ticks <= start { sat_add(start, sat_mul(4, unit)) } else { self.loop_end_ticks };
        let e2 = if e1 - start < unit { sat_add(start, unit) } else { e1 };
        PlaylistLoop {
            loop_end_ticks: e2,
            loop_region_active: if e2 > start { true } else { self.loop_region_active },
            ..self
        }
    }

    /// The selection after the auto-select guard of the global loop.
    pub open spec fn with_minimum_global_loop(self, loop_enabled: bool, project_end: u64) -> PlaylistLoop {
        let unit = self.unit();
        if !loop_enabled || self.loop_dragging {
            self
        } else if !self.loop_region_active || self.loop_end_ticks <= self.loop_start_ticks
            || self.loop_end_ticks - self.loop_start_ticks < unit {
            let bar = sat_mul(4, unit);
            let end = if project_end > bar { project_end } else { bar };
            PlaylistLoop {
                loop_start_ticks: 0,
                loop_end_ticks: end,
                loop_preview_start_ticks: 0,
                loop_preview_end_ticks: end,
                loop_region_active: true,
                loop_drag_completed_this_frame: true,
                ..self
            }
        } else {
            self.sanitized()
        }
    }

    /// An inactive selection at tick 0 with the default PPQN.
    pub fn new() -> (l: PlaylistLoop)
        ensures
            l.ppqn == DEFAULT_PPQN,
            l.loop_start_ticks == 0 && l.loop_end_ticks == 0,
            !l.loop_region_active && !l.loop_dragging && !l.loop_preview_active,
            l.loop_preview_start_ticks == 0 && l.loop_preview_end_ticks == 0,
            l.loop_drag_handle == LoopDragHandle::Idle,
            !l.loop_drag_completed_this_frame,
    {
        PlaylistLoop {
            ppqn: DEFAULT_PPQN,
            loop_start_ticks: 0,
            loop_end_ticks: 0,
            loop_region_active: false,
            loop_dragging: false,
            loop_preview_start_ticks: 0,
            loop_preview_end_ticks: 0,
            loop_preview_active: false,
            loop_drag_handle: LoopDragHandle::Idle,
            loop_drag_completed_this_frame: false,
        }
    }

    /// Length of the loop region in ticks (0 when empty or reversed).
    pub fn loop_length_ticks(&self) -> (len: u64)
        ensures
            len == (if self.loop_end_ticks > self.loop_start_ticks {
                (self.loop_end_ticks - self.loop_start_ticks) as u64
            } else {
                0
            }),
    {
        self.loop_end_ticks.saturating_sub(self.loop_start_ticks)
    }

    /// Whether the region may be sent to the transport.
    pub fn is_loop_region_valid(&self) -> (valid: bool)
        ensures
            valid == self.region_valid(),
    {
        self.loop_region_active && self.loop_end_ticks > self.loop_start_ticks
    }

    /// Guard run before the region goes to the transport.
    pub fn sanitize_loop_region(&mut self)
        ensures
            *final(self) == old(self).sanitized(),
    {
        let ppqn = if self.ppqn == 0 { 1 } else { self.ppqn };
        let start = self.loop_start_ticks;
        let mut end = self.loop_end_ticks;
        if end <= start {
            end = start.saturating_add(saturating_mul_u64(4, ppqn));
        }
        if end.saturating_sub(start) < ppqn {
            end = start.saturating_add(ppqn);
        }
        self.loop_start_ticks = start;
        self.loop_end_ticks = end;
        if self.loop_end_ticks > self.loop_start_ticks {
            self.loop_region_active = true;
        }
    }

    /// REAPER-style auto-selection for the global loop, run before the
    /// transport is told: without a valid selection of at least one beat
    /// the whole project from tick 0 is selected (at least one bar); an
    /// existing selection gets the same guard as `sanitize_loop_region`.
    /// Nothing happens while the loop is off or a drag is in progress.
    pub fn ensure_minimum_global_loop(&mut self, loop_enabled: bool, project_end: u64)
        ensures
            *final(self) == old(self).with_minimum_global_loop(loop_enabled, project_end),
    {
        if !loop_enabled || self.loop_dragging {
            return;
        }
        let ppqn = if self.ppqn == 0 { 1 } else { self.ppqn };
        let len = self.loop_end_ticks.saturating_sub(self.loop_start_ticks);
        let needs_init = !self.loop_region_active
            || self.loop_end_ticks <= self.loop_start_ticks
            || len < ppqn;
        if needs_init {
            let total = project_end;
            let start = 0u64;
            let bar = saturating_mul_u64(4, ppqn);
            let mut end = if total > bar { total } else { bar };
            if end <= start {
                end = start.saturating_add(saturating_mul_u64(4, ppqn));
            }
            if end.saturating_sub(start) < ppqn {
                end = start.saturating_add(ppqn);
            }
            if end > start {
                self.loop_start_ticks = start;
                self.loop_end_ticks = end;
                self.loop_preview_start_ticks = start;
                self.loop_preview_end_ticks = end;
                self.loop_region_active = true;
                self.loop_drag_completed_this_frame = true;
            }
        } else {
            self.sanitize_loop_region();
        }
    }
}

impl PlaylistLoop {
    /// The selection once playback with the loop on has begun: without a
    /// valid selection of at least one beat the whole project from tick 0
    /// (at least one bar) is selected; the preview follows the region.
    pub open spec fn with_playing_loop(self, project_end: u64) -> PlaylistLoop {
        let unit = self.unit();
        let needs_init = !self.loop_region_active || self.loop_end_ticks <= self.loop_start_ticks
            || self.loop_end_ticks - self.loop_start_ticks < unit;
        let bar = sat_mul(4, unit);
        let s: u64 = if needs_init { 0 } else { self.loop_start_ticks };
        let e: u64 = if needs_init { if project_end > bar { project_end } else { bar } } else { self.loop_end_ticks };
        PlaylistLoop {
            loop_start_ticks: s,
            loop_end_ticks: e,
            loop_region_active: true,
            loop_preview_start_ticks: s,
            loop_preview_end_ticks: e,
            ..self
        }
    }

    /// The global loop the transport should hold, in ticks (enabled, start,
    /// end): the confirmed region with the pre-send guard while looping,
    /// nothing otherwise.
    pub open spec fn spec_desired_global_loop(self, is_looping: bool) -> (bool, u64, u64) {
        if is_looping && self.region_valid() {
            let e = self.sanitized().loop_end_ticks;
            (e > self.loop_start_ticks, self.loop_start_ticks, e)
        } else {
            (false, 0, 0)
        }
    }

    /// Keeps the selection playable while the transport plays with the
    /// loop on: an invalid or sub-beat selection becomes the whole project
    /// from tick 0 (at least one bar), and the preview shows the region.
    pub fn prepare_playing_loop(&mut self, project_end: u64)
        ensures
            *final(self) == old(self).with_playing_loop(project_end),
    {
        let ppqn = if self.ppqn == 0 { 1 } else { self.ppqn };
        let mut start = self.loop_start_ticks;
        let mut end = self.loop_end_ticks;
        let len = end.saturating_sub(start);
        if !self.loop_region_active || end <= start || len < ppqn {
            let bar = saturating_mul_u64(4, ppqn);
            start = 0;
            end = if project_end > bar { project_end } else { bar };
        }
        if end <= start {
            end = start.saturating_add(saturating_mul_u64(4, ppqn));
        }
        if end.saturating_sub(start) < ppqn {
            end = start.saturating_add(ppqn);
        }
        if end > start {
            self.loop_start_ticks = start;
            self.loop_end_ticks = end;
            self.loop_region_active = true;
            self.loop_preview_start_ticks = start;
            self.loop_preview_end_ticks = end;
        }
    }

    /// The global loop the transport should hold, in ticks: (enabled,
    /// start, end).
    pub fn desired_global_loop(&self, is_looping: bool) -> (want: (bool, u64, u64))
        ensures
            want == self.spec_desired_global_loop(is_looping),
    {
        if is_looping && self.is_loop_region_valid() {
            let ppqn = if self.ppqn == 0 { 1 } else { self.ppqn };
            let start = self.loop_start_ticks;
            let mut end = self.loop_end_ticks;
            if end <= start {
                end = start.saturating_add(saturating_mul_u64(4, ppqn));
            }
            if end.saturating_sub(start) < ppqn {
                end = start.saturating_add(ppqn);
            }
            (end > start, start, end)
        } else {
            (false, 0, 0)
        }
    }
}

/// While playing with the loop on, the selection is always a valid region
/// of at least one beat, which the transport is then asked to loop.
pub proof fn lemma_playing_loop_is_sent(sel: PlaylistLoop, project_end: u64)
    ensures
        sel.with_playing_loop(project_end).region_valid(),
        sel.with_playing_loop(project_end).loop_end_ticks - sel.with_playing_loop(project_end).loop_start_ticks
            >= sel.unit(),
        sel.with_playing_loop(project_end).spec_desired_global_loop(true) == (true,
            sel.with_playing_loop(project_end).loop_start_ticks, sel.with_playing_loop(project_end).loop_end_ticks),
{
}

/// With the loop on and no drag in progress, the auto-selection always
/// leaves a valid region of at least one beat.
pub proof fn lemma_global_loop_always_valid(sel: PlaylistLoop, project_end: u64)
    requires
        !sel.loop_dragging,
    ensures
        sel.with_minimum_global_loop(true, project_end).region_valid(),
        sel.with_minimum_global_loop(true, project_end).loop_end_ticks
            - sel.with_minimum_global_loop(true, project_end).loop_start_ticks >= sel.unit(),
        sel.with_minimum_global_loop(true, project_end).loop_end_ticks >= project_end
            || sel.region_valid(),
{
}

/// The guard leaves a valid selection of at least one beat wherever the
/// start leaves room for one beat, and applying it twice is applying it
/// once.
pub proof fn lemma_sanitize_valid_and_idempotent(sel: PlaylistLoop)
    ensures
        sel.loop_start_ticks + sel.unit() <= u64::MAX ==> (
            sel.sanitized().region_valid()
            && sel.sanitized().loop_end_ticks - sel.sanitized().loop_start_ticks >= sel.unit()),
        sel.sanitized().sanitized() == sel.sanitized(),
{
}

/// The playhead shown in the playlist and the engine's wrapped transport
/// position agree: `loop_display_tick` is the transport's wrap on ticks.
pub proof fn lemma_display_tick_matches_transport_wrap(t: crate::transport::TransportPosition, pos: u64)
    ensures
        wrap_into(pos, t.loop_start_samples, t.loop_end_samples, t.loop_enabled) == t.spec_wrap(pos),
{
}

} // verus!
