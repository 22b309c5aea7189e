use hikaru::fx_chain::{add_slot, navigate_slots, remove_last_slot, FxModule, FxSlot};

fn chain() -> Vec<FxSlot<u8>> {
    let mut v = Vec::new();
    for _ in 0..3 {
        add_slot(&mut v, 0u8);
    }
    v
}

fn ids(v: &Vec<FxSlot<u8>>) -> Vec<usize> {
    v.iter().map(|s| s.id).collect()
}

#[test]
fn new_slots_are_numbered_and_selected() {
    let mut v: Vec<FxSlot<u8>> = Vec::new();
    assert_eq!(add_slot(&mut v, 7), 0);
    assert_eq!(add_slot(&mut v, 8), 1);
    assert_eq!(ids(&v), vec![0, 1]);
    assert_eq!(v[1].name, "Empty Slot");
    assert!(v[1].active && !v[1].is_open);
    assert_eq!(v[1].params, 8);
}

#[test]
fn arrows_move_and_reorder_the_chain() {
    let mut v = chain();
    assert_eq!(navigate_slots(&mut v, 1, true, false, false), 0);
    assert_eq!(navigate_slots(&mut v, 0, true, false, false), 0);
    assert_eq!(navigate_slots(&mut v, 1, false, true, false), 2);
    assert_eq!(navigate_slots(&mut v, 2, false, true, false), 2);
    // Out-of-range selection is brought back first.
    assert_eq!(navigate_slots(&mut v, 9, false, false, false), 2);
    // Shift+Up moves slot 2 above slot 1.
    assert_eq!(navigate_slots(&mut v, 2, true, false, true), 1);
    assert_eq!(ids(&v), vec![0, 2, 1]);
    // Shift+Down moves it back.
    assert_eq!(navigate_slots(&mut v, 1, false, true, true), 2);
    assert_eq!(ids(&v), vec![0, 1, 2]);
    // Both with Shift in one frame: only the last move is applied.
    assert_eq!(navigate_slots(&mut v, 1, true, true, true), 1);
    assert_eq!(ids(&v), vec![1, 0, 2]);
    let mut empty: Vec<FxSlot<u8>> = Vec::new();
    assert_eq!(navigate_slots(&mut empty, 4, true, true, true), 4);
}

#[test]
fn removing_keeps_selection_on_a_slot() {
    let mut v = chain();
    assert_eq!(remove_last_slot(&mut v, 2), 1);
    assert_eq!(remove_last_slot(&mut v, 0), 0);
    assert_eq!(remove_last_slot(&mut v, 0), 0);
    assert!(v.is_empty());
    assert_eq!(remove_last_slot(&mut v, 3), 3);
}

#[test]
fn modules_and_editor_window() {
    let mut s = FxSlot::new(0, "Empty Slot".to_string(), ());
    s.toggle_editor();
    assert!(!s.is_open);
    assert!(!s.has_editor());
    s.choose_module(FxModule::OpenWavetable);
    assert_eq!(s.name, "OpenWavetable");
    assert!(s.has_editor());
    s.toggle_editor();
    assert!(s.is_open);
    s.choose_module(FxModule::OpenSpectralFX);
    assert_eq!(s.name, "OpenSpectralFX");
    s.toggle_editor();
    assert!(s.is_open);
}
