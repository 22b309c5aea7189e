//! A track's effect chain in the DSP rack: its slots, the selected slot,
//! moving through and reordering the chain with the arrow keys, adding and
//! removing slots, and the module each slot hosts.
use vstd::prelude::*;
use crate::explorer::str_eq;

verus! {

/// A slot of an effect chain; `params` holds the module's editor state.
pub struct FxSlot<P> {
    pub id: usize,
    pub name: String,
    pub active: bool,
    /// Whether the module's own editor window is open.
    pub is_open: bool,
    pub params: P,
}

/// The modules a slot can host.
#[derive(Clone, Copy, Debug, PartialEq, Eq, Structural)]
pub enum FxModule {
    OpenWavetable,
    OpenSpectralFX,
}

pub open spec fn module_name(m: FxModule) -> Seq<char> {
    match m {
        FxModule::OpenWavetable => "OpenWavetable"@,
        FxModule::OpenSpectralFX => "OpenSpectralFX"@,
    }
}

impl<P> FxSlot<P> {
    /// An active slot with its editor closed.
    pub fn new(id: usize, name: String, params: P) -> (s: FxSlot<P>)
        ensures
            s.id == id,
            s.name == name,
            s.active,
            !s.is_open,
            s.params == params,
    {
        FxSlot { id, name, active: true, is_open: false, params }
    }

    /// Whether the slot hosts a module with an editor window of its own
    /// (OpenWavetable).
    pub fn has_editor(&self) -> (b: bool)
        ensures
            b == (self.name@ == "OpenWavetable"@),
    {
        str_eq(self.name.as_str(), "OpenWavetable")
    }

    /// Loads a module into the slot (the slot takes its name).
    pub fn choose_module(&mut self, module: FxModule)
        ensures
            final(self).name@ == module_name(module),
            final(self).id == old(self).id,
            final(self).active == old(self).active,
            final(self).is_open == old(self).is_open,
            final(self).params == old(self).params,
    {
        self.name = match module {
            FxModule::OpenWavetable => "OpenWavetable".to_owned(),
            FxModule::OpenSpectralFX => "OpenSpectralFX".to_owned(),
        };
    }

    /// Opens or closes the module's editor window; only modules with one
    /// have it.
    pub fn toggle_editor(&mut self)
        ensures
            *final(self) == (if old(self).name@ == "OpenWavetable"@ {
                FxSlot { is_open: !old(self).is_open, ..*old(self) }
            } else {
                *old(self)
            }),
    {
        if self.has_editor() {
            self.is_open = !self.is_open;
        }
    }
}

/// The selection kept on an existing slot of a non-empty chain.
pub open spec fn clamped_selection(len: int, sel: int) -> int {
    if len > 0 && sel >= len { len - 1 } else { sel }
}

/// The chain and selection after the arrow keys of a frame: Up and Down
/// move the selection (Down handled after Up); with Shift the slot moves
/// along, and only the last such move of the frame is applied to the
/// chain. An empty chain ignores the keys.
pub open spec fn after_arrows<T>(s: Seq<T>, sel: int, up: bool, down: bool, shift: bool) -> (Seq<T>, int) {
    if s.len() == 0 {
        (s, sel)
    } else {
        let n = s.len() as int;
        let s0 = clamped_selection(n, sel);
        let (s1, swap1) = if up && s0 > 0 {
            (s0 - 1, if shift { Some((s0, s0 - 1)) } else { None::<(int, int)> })
        } else {
            (s0, None::<(int, int)>)
        };
        let (s2, swap2) = if down && s1 + 1 < n {
            (s1 + 1, if shift { Some((s1, s1 + 1)) } else { swap1 })
        } else {
            (s1, swap1)
        };
        match swap2 {
            Some((a, b)) => (s.update(a, s[b]).update(b, s[a]), s2),
            None => (s, s2),
        }
    }
}

/// Exchanges two neighbouring slots (`b == a + 1`).
fn swap_neighbours<T>(slots: &mut Vec<T>, a: usize, b: usize)
    requires
        b == a + 1,
        b < old(slots)@.len(),
    ensures
        final(slots)@ == old(slots)@.update(a as int, old(slots)@[b as int]).update(b as int, old(slots)@[a as int]),
{
    let moved = slots.remove(b);
    slots.insert(a, moved);
    assert(slots@ =~= old(slots)@.update(a as int, old(slots)@[b as int]).update(b as int, old(slots)@[a as int]));
}

/// The arrow keys of a frame in the rack. Returns the new selection.
pub fn navigate_slots<T>(slots: &mut Vec<T>, selected: usize, up: bool, down: bool, shift: bool) -> (sel: usize)
    ensures
        ({
            let r = after_arrows(old(slots)@, selected as int, up, down, shift);
            final(slots)@ == r.0 && sel == r.1
        }),
{
    let n = slots.len();
    if n == 0 {
        return selected;
    }
    let mut sel = if selected >= n { n - 1 } else { selected };
    let mut swap: Option<(usize, usize)> = None;
    if up && sel > 0 {
        if shift {
            swap = Some((sel, sel - 1));
        }
        sel = sel - 1;
    }
    if down && sel + 1 < n {
        if shift {
            swap = Some((sel, sel + 1));
        }
        sel = sel + 1;
    }
    match swap {
        Some((a, b)) => {
            if a < b {
                swap_neighbours(slots, a, b);
            } else {
                swap_neighbours(slots, b, a);
                assert(slots@ =~= old(slots)@.update(a as int, old(slots)@[b as int]).update(b as int, old(slots)@[a as int]));
            }
        },
        None => {},
    }
    sel
}

/// Adds an empty slot (id: its position) at the end of the chain and
/// selects it. Returns the new selection.
pub fn add_slot<P>(slots: &mut Vec<FxSlot<P>>, params: P) -> (sel: usize)
    requires
        old(slots)@.len() < usize::MAX,
    ensures
        final(slots)@.len() == old(slots)@.len() + 1,
        final(slots)@.drop_last() == old(slots)@,
        final(slots)@.last().id == old(slots)@.len(),
        final(slots)@.last().name@ == "Empty Slot"@,
        final(slots)@.last().active && !final(slots)@.last().is_open,
        final(slots)@.last().params == params,
        sel == old(slots)@.len(),
{
    let id = slots.len();
    slots.push(FxSlot::new(id, "Empty Slot".to_owned(), params));
    assert(slots@.drop_last() =~= old(slots)@);
    slots.len() - 1
}

/// Removes the last slot (when there is one); the selection stays on an
/// existing slot. Returns the new selection.
pub fn remove_last_slot<T>(slots: &mut Vec<T>, selected: usize) -> (sel: usize)
    ensures
        old(slots)@.len() == 0 ==> final(slots)@ == old(slots)@ && sel == selected,
        old(slots)@.len() > 0 ==> final(slots)@ == old(slots)@.drop_last()
            && sel == clamped_selection(final(slots)@.len() as int, selected as int),
{
    if slots.len() > 0 {
        let _ = slots.pop();
        if selected >= slots.len() && slots.len() > 0 {
            return slots.len() - 1;
        }
    }
    selected
}

/// `s` with the items at `a` and `a + 1` exchanged.
pub open spec fn swapped_at<T>(s: Seq<T>, a: int) -> Seq<T> {
    s.update(a, s[a + 1]).update(a + 1, s[a])
}

/// The arrow keys only reorder the chain: it is left as it was or two
/// neighbouring slots are exchanged, and the selection stays on a slot.
pub proof fn lemma_arrows_keep_chain<T>(s: Seq<T>, sel: int, up: bool, down: bool, shift: bool)
    requires
        s.len() > 0,
        sel >= 0,
    ensures
        0 <= after_arrows(s, sel, up, down, shift).1 < s.len(),
        after_arrows(s, sel, up, down, shift).0 == s
            || exists|a: int| 0 <= a && a + 1 < s.len() && after_arrows(s, sel, up, down, shift).0
                == #[trigger] swapped_at(s, a),
{
    let r = after_arrows(s, sel, up, down, shift);
    if r.0 != s {
        let n = s.len() as int;
        let s0 = clamped_selection(n, sel);
        let s1 = if up && s0 > 0 { s0 - 1 } else { s0 };
        if down && s1 + 1 < n && shift {
            assert(r.0 == swapped_at(s, s1));
        } else {
            assert(up && s0 > 0 && shift);
            let a = s0 - 1;
            assert(s.update(s0, s[a]).update(a, s[s0]) =~= swapped_at(s, a));
            assert(r.0 == swapped_at(s, a));
        }
    }
}

} // verus!
