//! Editing the time selection on the ruler: dragging the `[` and `]`
//! brackets, or Shift+dragging a new selection. While a drag goes on only
//! the preview moves; the confirmed region (what the transport loops) is
//! written when the drag stops, snapped to the grid and guarded to at
//! least one beat.
use vstd::prelude::*;
use crate::playlist::{spec_snap, snap_ticks, lemma_snap_monotonic, sat_add, sat_mul, saturating_mul_u64, LoopDragHandle, PlaylistLoop};
use crate::transport::sat_sub;

verus! {

pub open spec fn min_u64(a: u64, b: u64) -> u64 {
    if a <= b { a } else { b }
}

pub open spec fn max_u64(a: u64, b: u64) -> u64 {
    if a >= b { a } else { b }
}

/// The end a confirmed region gets from the pre-send guard: an empty or
/// reversed region becomes one bar long, one shorter than a beat one beat.
pub open spec fn guarded_end(s: u64, e: u64, unit: u64) -> u64 {
    let e1 = if e <= s { sat_add(s, sat_mul(4, unit)) } else { e };
    if e1 - s < unit { sat_add(s, unit) } else { e1 }
}

impl PlaylistLoop {
    pub open spec fn bracket_drag_on(self) -> bool {
        self.loop_drag_handle == LoopDragHandle::Left || self.loop_drag_handle == LoopDragHandle::Right
    }

    /// The region the brackets are drawn on: the preview while a bracket
    /// is dragged, else the confirmed region (when non-empty).
    pub open spec fn spec_bracket_region(self) -> Option<(u64, u64)> {
        if self.loop_dragging && self.loop_preview_active && self.bracket_drag_on() {
            if self.loop_preview_end_ticks > self.loop_preview_start_ticks {
                Some((self.loop_preview_start_ticks, self.loop_preview_end_ticks))
            } else {
                None
            }
        } else if self.loop_region_active && self.loop_end_ticks > self.loop_start_ticks {
            Some((self.loop_start_ticks, self.loop_end_ticks))
        } else {
            None
        }
    }

    /// The region shown translucent: the preview during a drag, else the
    /// confirmed one (active flag, start, end).
    pub open spec fn spec_shown_region(self) -> (bool, u64, u64) {
        if self.loop_dragging && self.loop_preview_active {
            (true, self.loop_preview_start_ticks, self.loop_preview_end_ticks)
        } else {
            (self.loop_region_active, self.loop_start_ticks, self.loop_end_ticks)
        }
    }

    pub open spec fn began_bracket_drag(self, handle: LoopDragHandle) -> PlaylistLoop {
        PlaylistLoop {
            loop_preview_start_ticks: self.loop_start_ticks,
            loop_preview_end_ticks: self.loop_end_ticks,
            loop_preview_active: true,
            loop_dragging: true,
            loop_drag_handle: handle,
            ..self
        }
    }

    pub open spec fn dragged_left_bracket(self, pointer_tick: u64, grid_ticks: u64) -> PlaylistLoop {
        if self.loop_drag_handle != LoopDragHandle::Left {
            self
        } else {
            let mapped = spec_snap(pointer_tick, grid_ticks);
            let min_ticks = self.unit();
            let other = max_u64(self.loop_preview_end_ticks, max_u64(self.loop_end_ticks, sat_add(min_ticks, 1)));
            let max_start = sat_sub(other, min_ticks);
            PlaylistLoop {
                loop_preview_start_ticks: min_u64(mapped, max_start),
                loop_preview_end_ticks: other,
                loop_preview_active: true,
                loop_dragging: true,
                ..self
            }
        }
    }

    pub open spec fn dragged_right_bracket(self, pointer_tick: u64, grid_ticks: u64) -> PlaylistLoop {
        if self.loop_drag_handle != LoopDragHandle::Right {
            self
        } else {
            let mapped = spec_snap(pointer_tick, grid_ticks);
            let min_end = sat_add(self.loop_preview_start_ticks, self.unit());
            PlaylistLoop {
                loop_preview_end_ticks: max_u64(mapped, min_end),
                loop_preview_active: true,
                loop_dragging: true,
                ..self
            }
        }
    }

    pub open spec fn finished_bracket_drag(self, grid_ticks: u64) -> PlaylistLoop {
        if !self.bracket_drag_on() {
            self
        } else {
            let s = spec_snap(min_u64(self.loop_preview_start_ticks, self.loop_preview_end_ticks), grid_ticks);
            let e = guarded_end(s,
                spec_snap(max_u64(self.loop_preview_start_ticks, self.loop_preview_end_ticks), grid_ticks), self.unit());
            let confirmed = if e > s {
                PlaylistLoop { loop_start_ticks: s, loop_end_ticks: e, loop_region_active: true, ..self }
            } else {
                self
            };
            let san = confirmed.sanitized();
            PlaylistLoop {
                loop_preview_start_ticks: s,
                loop_preview_end_ticks: san.loop_end_ticks,
                loop_preview_active: false,
                loop_dragging: false,
                loop_drag_handle: LoopDragHandle::Idle,
                loop_drag_completed_this_frame: true,
                ..san
            }
        }
    }

    pub open spec fn dragged_selection(self, pointer_tick: u64, origin_tick: Option<u64>, started: bool, grid_ticks: u64) -> PlaylistLoop {
        let cur = spec_snap(pointer_tick, grid_ticks);
        if started {
            PlaylistLoop {
                loop_preview_start_ticks: cur,
                loop_preview_end_ticks: cur,
                loop_preview_active: true,
                loop_dragging: true,
                loop_drag_handle: LoopDragHandle::Body,
                ..self
            }
        } else {
            match origin_tick {
                Some(o) => {
                    let a = spec_snap(o, grid_ticks);
                    PlaylistLoop {
                        loop_preview_start_ticks: min_u64(a, cur),
                        loop_preview_end_ticks: max_u64(a, cur),
                        loop_preview_active: true,
                        loop_dragging: true,
                        loop_drag_handle: LoopDragHandle::Body,
                        ..self
                    }
                },
                None => if cur >= self.loop_preview_start_ticks {
                    PlaylistLoop { loop_preview_end_ticks: cur, loop_preview_active: true, loop_dragging: true, ..self }
                } else {
                    PlaylistLoop { loop_preview_start_ticks: cur, loop_preview_active: true, loop_dragging: true, ..self }
                },
            }
        }
    }

    pub open spec fn finished_selection_drag(self, pointer: Option<(u64, u64)>, grid_ticks: u64) -> PlaylistLoop {
        if !self.loop_dragging || self.bracket_drag_on() {
            self
        } else {
            let (a, b) = match pointer {
                Some((p, o)) => (min_u64(p, o), max_u64(p, o)),
                None => (min_u64(self.loop_preview_start_ticks, self.loop_preview_end_ticks),
                    max_u64(self.loop_preview_start_ticks, self.loop_preview_end_ticks)),
            };
            let ms = spec_snap(a, grid_ticks);
            let me = spec_snap(b, grid_ticks);
            let s = min_u64(ms, me);
            let e = guarded_end(s, max_u64(ms, me), self.unit());
            let confirmed = PlaylistLoop {
                loop_dragging: false,
                loop_preview_active: false,
                loop_start_ticks: s,
                loop_end_ticks: e,
                loop_region_active: true,
                ..self
            };
            let san = confirmed.sanitized();
            let e2 = if san.loop_end_ticks < sat_add(san.loop_start_ticks, self.unit()) {
                sat_add(san.loop_start_ticks, self.unit())
            } else {
                san.loop_end_ticks
            };
            PlaylistLoop {
                loop_end_ticks: e2,
                loop_preview_start_ticks: san.loop_start_ticks,
                loop_preview_end_ticks: e2,
                loop_drag_handle: LoopDragHandle::Idle,
                loop_drag_completed_this_frame: true,
                ..san
            }
        }
    }

    /// Where the bracket handles sit, if anywhere.
    pub fn bracket_region(&self) -> (r: Option<(u64, u64)>)
        ensures
            r == self.spec_bracket_region(),
    {
        let bracket_on = self.loop_drag_handle == LoopDragHandle::Left || self.loop_drag_handle == LoopDragHandle::Right;
        if self.loop_dragging && self.loop_preview_active && bracket_on {
            if self.loop_preview_end_ticks > self.loop_preview_start_ticks {
                Some((self.loop_preview_start_ticks, self.loop_preview_end_ticks))
            } else {
                None
            }
        } else if self.loop_region_active && self.loop_end_ticks > self.loop_start_ticks {
            Some((self.loop_start_ticks, self.loop_end_ticks))
        } else {
            None
        }
    }

    /// The region to draw: (active, start, end).
    pub fn shown_region(&self) -> (r: (bool, u64, u64))
        ensures
            r == self.spec_shown_region(),
    {
        if self.loop_dragging && self.loop_preview_active {
            (true, self.loop_preview_start_ticks, self.loop_preview_end_ticks)
        } else {
            (self.loop_region_active, self.loop_start_ticks, self.loop_end_ticks)
        }
    }

    /// A bracket drag starts: the preview starts from the confirmed region.
    pub fn begin_bracket_drag(&mut self, handle: LoopDragHandle)
        ensures
            *final(self) == old(self).began_bracket_drag(handle),
    {
        self.loop_preview_start_ticks = self.loop_start_ticks;
        self.loop_preview_end_ticks = self.loop_end_ticks;
        self.loop_preview_active = true;
        self.loop_dragging = true;
        self.loop_drag_handle = handle;
    }

    /// The `[` bracket follows the pointer (snapped), staying at least one
    /// beat before the end.
    pub fn drag_left_bracket(&mut self, pointer_tick: u64, grid_ticks: u64)
        ensures
            *final(self) == old(self).dragged_left_bracket(pointer_tick, grid_ticks),
    {
        if self.loop_drag_handle != LoopDragHandle::Left {
            return;
        }
        let mapped = snap_ticks(pointer_tick, grid_ticks);
        let min_ticks = if self.ppqn == 0 { 1 } else { self.ppqn };
        let floor_end = min_ticks.saturating_add(1);
        let confirmed_end = if self.loop_end_ticks >= floor_end { self.loop_end_ticks } else { floor_end };
        let other = if self.loop_preview_end_ticks >= confirmed_end { self.loop_preview_end_ticks } else { confirmed_end };
        let max_start = other.saturating_sub(min_ticks);
        self.loop_preview_start_ticks = if mapped <= max_start { mapped } else { max_start };
        self.loop_preview_end_ticks = other;
        self.loop_preview_active = true;
        self.loop_dragging = true;
    }

    /// The `]` bracket follows the pointer (snapped), staying at least one
    /// beat after the start.
    pub fn drag_right_bracket(&mut self, pointer_tick: u64, grid_ticks: u64)
        ensures
            *final(self) == old(self).dragged_right_bracket(pointer_tick, grid_ticks),
    {
        if self.loop_drag_handle != LoopDragHandle::Right {
            return;
        }
        let mapped = snap_ticks(pointer_tick, grid_ticks);
        let unit = if self.ppqn == 0 { 1 } else { self.ppqn };
        let min_end = self.loop_preview_start_ticks.saturating_add(unit);
        self.loop_preview_end_ticks = if mapped >= min_end { mapped } else { min_end };
        self.loop_preview_active = true;
        self.loop_dragging = true;
    }

    /// A bracket drag stops: the snapped preview, guarded to at least one
    /// beat, becomes the confirmed region and is flagged for the transport.
    pub fn finish_bracket_drag(&mut self, grid_ticks: u64)
        ensures
            *final(self) == old(self).finished_bracket_drag(grid_ticks),
    {
        if !(self.loop_drag_handle == LoopDragHandle::Left || self.loop_drag_handle == LoopDragHandle::Right) {
            return;
        }
        let ps = self.loop_preview_start_ticks;
        let pe = self.loop_preview_end_ticks;
        let s = snap_ticks(if ps <= pe { ps } else { pe }, grid_ticks);
        let mut e = snap_ticks(if ps >= pe { ps } else { pe }, grid_ticks);
        let unit = if self.ppqn == 0 { 1 } else { self.ppqn };
        if e <= s {
            e = s.saturating_add(saturating_mul_u64(4, unit));
        }
        if e.saturating_sub(s) < unit {
            e = s.saturating_add(unit);
        }
        if e > s {
            self.loop_start_ticks = s;
            self.loop_end_ticks = e;
            self.loop_region_active = true;
        }
        self.sanitize_loop_region();
        self.loop_preview_start_ticks = s;
        self.loop_preview_end_ticks = self.loop_end_ticks;
        self.loop_preview_active = false;
        self.loop_dragging = false;
        self.loop_drag_handle = LoopDragHandle::Idle;
        self.loop_drag_completed_this_frame = true;
    }

    /// Shift+drag on the ruler draws a new selection from the press point
    /// (`origin_tick`, when known) to the pointer, both snapped; a drag
    /// that just `started` collapses the preview onto the pointer.
    pub fn drag_selection(&mut self, pointer_tick: u64, origin_tick: Option<u64>, started: bool, grid_ticks: u64)
        ensures
            *final(self) == old(self).dragged_selection(pointer_tick, origin_tick, started, grid_ticks),
    {
        let cur = snap_ticks(pointer_tick, grid_ticks);
        if started {
            self.loop_preview_start_ticks = cur;
            self.loop_preview_end_ticks = cur;
            self.loop_preview_active = true;
            self.loop_dragging = true;
            self.loop_drag_handle = LoopDragHandle::Body;
        } else {
            match origin_tick {
                Some(o) => {
                    let a = snap_ticks(o, grid_ticks);
                    self.loop_preview_start_ticks = if a <= cur { a } else { cur };
                    self.loop_preview_end_ticks = if a >= cur { a } else { cur };
                    self.loop_preview_active = true;
                    self.loop_dragging = true;
                    self.loop_drag_handle = LoopDragHandle::Body;
                },
                None => {
                    if cur >= self.loop_preview_start_ticks {
                        self.loop_preview_end_ticks = cur;
                    } else {
                        self.loop_preview_start_ticks = cur;
                    }
                    self.loop_preview_active = true;
                    self.loop_dragging = true;
                },
            }
        }
    }

    /// A Shift+drag stops: the span between the pointer and the press point
    /// (`pointer`, as (pointer, origin) ticks; the preview when unknown),
    /// snapped and guarded to at least one beat, becomes the confirmed
    /// region and is flagged for the transport.
    pub fn finish_selection_drag(&mut self, pointer: Option<(u64, u64)>, grid_ticks: u64)
        ensures
            *final(self) == old(self).finished_selection_drag(pointer, grid_ticks),
    {
        if !self.loop_dragging || self.loop_drag_handle == LoopDragHandle::Left
            || self.loop_drag_handle == LoopDragHandle::Right {
            return;
        }
        let (a, b) = match pointer {
            Some((p, o)) => (if p <= o { p } else { o }, if p >= o { p } else { o }),
            None => {
                let ps = self.loop_preview_start_ticks;
                let pe = self.loop_preview_end_ticks;
                (if ps <= pe { ps } else { pe }, if ps >= pe { ps } else { pe })
            },
        };
        let ms = snap_ticks(a, grid_ticks);
        let me = snap_ticks(b, grid_ticks);
        let start = if ms <= me { ms } else { me };
        let mut end = if ms >= me { ms } else { me };
        let unit = if self.ppqn == 0 { 1 } else { self.ppqn };
        if end <= start {
            end = start.saturating_add(saturating_mul_u64(4, unit));
        }
        if end.saturating_sub(start) < unit {
            end = start.saturating_add(unit);
        }
        self.loop_dragging = false;
        self.loop_preview_active = false;
        self.loop_start_ticks = start;
        self.loop_end_ticks = end;
        self.loop_region_active = true;
        self.sanitize_loop_region();
        if self.loop_end_ticks < self.loop_start_ticks.saturating_add(unit) {
            self.loop_end_ticks = self.loop_start_ticks.saturating_add(unit);
        }
        self.loop_preview_start_ticks = self.loop_start_ticks;
        self.loop_preview_end_ticks = self.loop_end_ticks;
        self.loop_drag_handle = LoopDragHandle::Idle;
        self.loop_drag_completed_this_frame = true;
    }
}

/// The confirmed region (start, end, active flag) and the beat size.
pub open spec fn confirmed_part(l: PlaylistLoop) -> (u64, u64, bool, u64) {
    (l.loop_start_ticks, l.loop_end_ticks, l.loop_region_active, l.ppqn)
}

/// While a drag goes on, only the preview moves: every drag step leaves
/// the confirmed region, which the transport loops, as it was.
pub proof fn lemma_drag_steps_keep_confirmed_region(sel: PlaylistLoop, handle: LoopDragHandle, pointer_tick: u64,
    origin_tick: Option<u64>, started: bool, grid_ticks: u64)
    ensures
        confirmed_part(sel.began_bracket_drag(handle)) == confirmed_part(sel),
        confirmed_part(sel.dragged_left_bracket(pointer_tick, grid_ticks)) == confirmed_part(sel),
        confirmed_part(sel.dragged_right_bracket(pointer_tick, grid_ticks)) == confirmed_part(sel),
        confirmed_part(sel.dragged_selection(pointer_tick, origin_tick, started, grid_ticks)) == confirmed_part(sel),
{
}

/// Dragging a bracket never lets the preview shrink below one beat: the
/// `[` stays a beat before the end, the `]` a beat after the start (where
/// the range leaves room for it).
pub proof fn lemma_bracket_drag_keeps_a_beat(sel: PlaylistLoop, pointer_tick: u64, grid_ticks: u64)
    ensures
        sel.loop_drag_handle == LoopDragHandle::Left ==> ({
            let r = sel.dragged_left_bracket(pointer_tick, grid_ticks);
            r.loop_preview_end_ticks - r.loop_preview_start_ticks >= sel.unit()
        }),
        (sel.loop_drag_handle == LoopDragHandle::Right && sel.loop_preview_start_ticks + sel.unit() <= u64::MAX) ==> ({
            let r = sel.dragged_right_bracket(pointer_tick, grid_ticks);
            r.loop_preview_end_ticks - r.loop_preview_start_ticks >= sel.unit()
        }),
{
}

/// When a drag stops, the confirmed region is a valid selection of at
/// least one beat (where the snapped start leaves room for one), the drag
/// state is cleared and the region is flagged for the transport.
pub proof fn lemma_finished_drag_confirms_valid_region(sel: PlaylistLoop, pointer: Option<(u64, u64)>, grid_ticks: u64)
    ensures
        ({
            let s = spec_snap(min_u64(sel.loop_preview_start_ticks, sel.loop_preview_end_ticks), grid_ticks);
            let r = sel.finished_bracket_drag(grid_ticks);
            (sel.bracket_drag_on() && s + sel.unit() <= u64::MAX) ==> {
                &&& r.region_valid()
                &&& r.loop_start_ticks == s
                &&& r.loop_end_ticks - r.loop_start_ticks >= sel.unit()
                &&& !r.loop_dragging && !r.loop_preview_active
                &&& r.loop_drag_handle == LoopDragHandle::Idle
                &&& r.loop_drag_completed_this_frame
            }
        }),
        ({
            let r = sel.finished_selection_drag(pointer, grid_ticks);
            (sel.loop_dragging && !sel.bracket_drag_on()) ==> {
                &&& r.loop_region_active
                &&& (r.loop_start_ticks + sel.unit() <= u64::MAX ==>
                    r.region_valid() && r.loop_end_ticks - r.loop_start_ticks >= sel.unit())
                &&& !r.loop_dragging && !r.loop_preview_active
                &&& r.loop_drag_handle == LoopDragHandle::Idle
                &&& r.loop_drag_completed_this_frame
                &&& r.loop_preview_start_ticks == r.loop_start_ticks
                &&& r.loop_preview_end_ticks == r.loop_end_ticks
            }
        }),
{
}


/// The region a Shift+drag confirms does not depend on the drag direction:
/// dragging from `o` to `p` or from `p` to `o` gives the same selection. It
/// starts at the snap of the earlier tick and, when the snapped span holds
/// at least a beat, ends at the snap of the later one.
pub proof fn lemma_selection_drag_ignores_direction(sel: PlaylistLoop, p: u64, o: u64, grid_ticks: u64)
    ensures
        sel.finished_selection_drag(Some((p, o)), grid_ticks) == sel.finished_selection_drag(Some((o, p)), grid_ticks),
        ({
            let r = sel.finished_selection_drag(Some((p, o)), grid_ticks);
            let s = spec_snap(min_u64(p, o), grid_ticks);
            let e = spec_snap(max_u64(p, o), grid_ticks);
            (sel.loop_dragging && !sel.bracket_drag_on()) ==> {
                &&& r.loop_start_ticks == s
                &&& (e >= s + sel.unit() ==> r.loop_end_ticks == e)
            }
        }),
{
    lemma_snap_monotonic(min_u64(p, o), max_u64(p, o), grid_ticks);
}

} // verus!
