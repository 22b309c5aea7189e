use hikaru::playlist::{
    loop_display_tick, snap_ticks, total_project_ticks, LoopDragHandle, PlaylistLoop, ViewMode,
};
use hikaru::transport::TransportPosition;

#[test]
fn snap_rounds_to_nearest_grid_multiple() {
    assert_eq!(snap_ticks(0, 240), 0);
    assert_eq!(snap_ticks(119, 240), 0);
    assert_eq!(snap_ticks(120, 240), 240);
    assert_eq!(snap_ticks(359, 240), 240);
    assert_eq!(snap_ticks(360, 240), 480);
    assert_eq!(snap_ticks(1234, 0), 1234);
    assert_eq!(snap_ticks(4, 3), 3);
    assert_eq!(snap_ticks(5, 3), 6);
    assert_eq!(snap_ticks(u64::MAX, 1), u64::MAX);
    assert_eq!(snap_ticks(u64::MAX, 2), u64::MAX);
}

#[test]
fn display_tick_wraps_inside_time_selection() {
    assert_eq!(loop_display_tick(5000, 1000, 4000, false), 5000);
    assert_eq!(loop_display_tick(500, 1000, 4000, true), 500);
    assert_eq!(loop_display_tick(2500, 1000, 4000, true), 2500);
    assert_eq!(loop_display_tick(4000, 1000, 4000, true), 1000);
    assert_eq!(loop_display_tick(8500, 1000, 4000, true), 2500);
    assert_eq!(loop_display_tick(8500, 4000, 4000, true), 8500);
}

#[test]
fn display_tick_matches_transport_wrap() {
    let mut t = TransportPosition::new();
    t.set_loop_region_samples(960, 3840);
    t.set_loop_enabled(true);
    for pos in [0u64, 959, 960, 3839, 3840, 10_000] {
        assert_eq!(loop_display_tick(pos, 960, 3840, true), t.wrap_sample_count(pos));
    }
}

#[test]
fn view_modes() {
    let a = ViewMode::Arranger;
    let e = ViewMode::ClipEditor { title: "Clip 3 - Kick" };
    assert!(a.drives_engine() && a.allows_track_add_remove());
    assert!(!e.drives_engine() && !e.allows_track_add_remove());
    assert_eq!(a.header_label(), "PLAYLIST / ARRANGEMENT");
    assert_eq!(e.header_label(), "Clip 3 - Kick");
}

#[test]
fn project_end_is_furthest_clip_end() {
    assert_eq!(total_project_ticks(&vec![]), 0);
    assert_eq!(total_project_ticks(&vec![(0, 3840), (1920, 960), (100, 50)]), 3840);
    assert_eq!(total_project_ticks(&vec![(u64::MAX - 1, 10)]), u64::MAX);
}

#[test]
fn sanitize_forces_minimum_region() {
    let mut l = PlaylistLoop::new();
    assert_eq!(l.loop_drag_handle, LoopDragHandle::Idle);
    l.loop_start_ticks = 1000;
    l.loop_end_ticks = 500;
    l.sanitize_loop_region();
    assert_eq!(l.loop_end_ticks, 1000 + 4 * 960);
    assert!(l.is_loop_region_valid());
    l.loop_end_ticks = 1100;
    l.sanitize_loop_region();
    assert_eq!(l.loop_end_ticks, 1000 + 960);
    assert_eq!(l.loop_length_ticks(), 960);
    let before = (l.loop_start_ticks, l.loop_end_ticks);
    l.sanitize_loop_region();
    assert_eq!((l.loop_start_ticks, l.loop_end_ticks), before);
}

#[test]
fn global_loop_auto_selection() {
    let mut l = PlaylistLoop::new();
    // Loop off: nothing changes.
    l.ensure_minimum_global_loop(false, 10_000);
    assert!(!l.loop_region_active);
    // No selection: whole project from 0.
    l.ensure_minimum_global_loop(true, 10_000);
    assert_eq!((l.loop_start_ticks, l.loop_end_ticks), (0, 10_000));
    assert_eq!((l.loop_preview_start_ticks, l.loop_preview_end_ticks), (0, 10_000));
    assert!(l.loop_region_active && l.loop_drag_completed_this_frame);
    // Empty project: one bar.
    let mut l2 = PlaylistLoop::new();
    l2.ensure_minimum_global_loop(true, 0);
    assert_eq!((l2.loop_start_ticks, l2.loop_end_ticks), (0, 4 * 960));
    // A valid selection is kept.
    let mut l3 = PlaylistLoop::new();
    l3.loop_region_active = true;
    l3.loop_start_ticks = 960;
    l3.loop_end_ticks = 2880;
    l3.ensure_minimum_global_loop(true, 100_000);
    assert_eq!((l3.loop_start_ticks, l3.loop_end_ticks), (960, 2880));
    // Dragging: untouched.
    let mut l4 = PlaylistLoop::new();
    l4.loop_dragging = true;
    l4.ensure_minimum_global_loop(true, 100_000);
    assert!(!l4.loop_region_active);
    // Zero PPQN counts as one tick per beat.
    let mut l5 = PlaylistLoop::new();
    l5.ppqn = 0;
    l5.ensure_minimum_global_loop(true, 0);
    assert_eq!(l5.loop_end_ticks, 4);
}
