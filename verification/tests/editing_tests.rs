use hikaru::explorer::bpm_digits_in_name;
use hikaru::mixer::{
    add_strip, navigate_strips, remove_last_strip, sync_matrix_mixer, sync_source, MixerStrip, SyncSource, TrackCommand,
};
use hikaru::playlist::{LoopDragHandle, PlaylistLoop};
use hikaru::session::{LoadRequest, SessionMatrixState, SlotState};
use hikaru::settings::{view_after_tab, AppMode, OpenLiveView, PanMode};
use hikaru::timeline::{AudioSpan, Timeline, TimelineClip};
use hikaru::transport::{TransportPlaybackState, TransportPosition};
use hikaru::transport_controls::{press_pause, press_play, press_rewind, press_stop, select_mode, TransportRequest};

type Mix = (f32, f32);

fn digits(name: &str) -> Option<String> {
    bpm_digits_in_name(name).map(|v| v.into_iter().collect())
}

#[test]
fn bpm_digits_come_from_the_file_name() {
    assert_eq!(digits("Drums_120BPM.wav"), Some("120".to_string()));
    assert_eq!(digits("bass 98 bpm loop.wav"), Some("98".to_string()));
    assert_eq!(digits("v2_take_140bpm_v3.wav"), Some("140".to_string()));
    assert_eq!(digits("Kick.wav"), None);
    assert_eq!(digits("bpm_first_120.wav"), None);
    assert_eq!(digits("x_bpm_120bpm.wav"), None);
}

#[test]
fn tab_switches_views_and_returns_to_openlive() {
    assert_eq!(
        view_after_tab(AppMode::OpenLive, OpenLiveView::SessionMatrix),
        (AppMode::OpenLive, OpenLiveView::ArrangerView)
    );
    assert_eq!(
        view_after_tab(AppMode::OpenLive, OpenLiveView::ArrangerView),
        (AppMode::OpenLive, OpenLiveView::SessionMatrix)
    );
    assert_eq!(
        view_after_tab(AppMode::OpenStudio, OpenLiveView::ArrangerView),
        (AppMode::OpenLive, OpenLiveView::ArrangerView)
    );
}

#[test]
fn sync_source_prefers_the_mixer() {
    assert_eq!(sync_source(false, false), SyncSource::Unchanged);
    assert_eq!(sync_source(true, false), SyncSource::Matrix);
    assert_eq!(sync_source(false, true), SyncSource::Mixer);
    assert_eq!(sync_source(true, true), SyncSource::Mixer);
}

#[test]
fn first_sync_builds_master_and_one_strip_per_track() {
    let mut matrix: SessionMatrixState<String, Mix> = SessionMatrixState::new((0.75, 0.0));
    let mut live: Vec<MixerStrip<Mix>> = Vec::new();
    let cmds = sync_matrix_mixer(&mut live, &mut matrix, &Vec::new(), &Vec::new(), (0.75, 0.0));
    assert!(cmds.is_empty());
    assert_eq!(live.len(), 9);
    assert!(live[0].is_master);
    assert_eq!(live[0].name, "MASTER");
    assert_eq!(live[0].matrix_idx, None);
    for i in 0..8 {
        assert_eq!(live[i + 1].name, format!("Track {}", i + 1));
        assert_eq!(live[i + 1].id, i + 1);
        assert_eq!(live[i + 1].matrix_idx, Some(i));
        assert!(!live[i + 1].is_master);
        assert_eq!(live[i + 1].pan_mode, PanMode::Stereo);
    }
}

#[test]
fn sync_carries_changed_flags_both_ways() {
    let mut matrix: SessionMatrixState<String, Mix> = SessionMatrixState::new((0.75, 0.0));
    let mut live: Vec<MixerStrip<Mix>> = Vec::new();
    sync_matrix_mixer(&mut live, &mut matrix, &Vec::new(), &Vec::new(), (0.75, 0.0));
    let snap_matrix: Vec<(bool, bool)> = matrix.tracks.iter().map(|t| (t.muted, t.soloed)).collect();
    let snap_mixer: Vec<(bool, bool)> = live.iter().map(|s| (s.mute, s.solo)).collect();

    // Mute on the session side of track 2, solo on the mixer side of track 3.
    matrix.tracks[2].muted = true;
    live[4].solo = true;
    let cmds = sync_matrix_mixer(&mut live, &mut matrix, &snap_matrix, &snap_mixer, (0.75, 0.0));
    assert!(live[3].mute);
    assert!(matrix.tracks[3].soloed);
    assert_eq!(
        cmds,
        vec![TrackCommand::SetMute { track_idx: 2, mute: true }, TrackCommand::SetSolo { track_idx: 3, solo: true }]
    );

    // A second sync on the settled state is quiet.
    let snap_matrix: Vec<(bool, bool)> = matrix.tracks.iter().map(|t| (t.muted, t.soloed)).collect();
    let snap_mixer: Vec<(bool, bool)> = live.iter().map(|s| (s.mute, s.solo)).collect();
    let cmds = sync_matrix_mixer(&mut live, &mut matrix, &snap_matrix, &snap_mixer, (0.75, 0.0));
    assert!(cmds.is_empty());
    assert!(live[3].mute && matrix.tracks[2].muted);
}

#[test]
fn sync_follows_track_count_and_keeps_master() {
    let mut matrix: SessionMatrixState<String, Mix> = SessionMatrixState::new((0.75, 0.0));
    let mut live = vec![MixerStrip::new(5, "first".to_string(), false, (0.5, 0.0))];
    sync_matrix_mixer(&mut live, &mut matrix, &Vec::new(), &Vec::new(), (0.7, 0.0));
    assert_eq!(live.len(), 9);
    assert!(live[0].is_master);
    assert_eq!(live[0].mix, (0.7, 0.0));
    // The old strip moved behind the new master and was renamed.
    assert_eq!(live[1].id, 5);
    assert_eq!(live[1].name, "Track 1");
    assert_eq!(live[1].mix, (0.5, 0.0));

    matrix.remove_track();
    matrix.remove_track();
    sync_matrix_mixer(&mut live, &mut matrix, &Vec::new(), &Vec::new(), (0.7, 0.0));
    assert_eq!(live.len(), 7);
}

#[test]
fn drop_on_pad_loads_a_stopped_clip() {
    let mut m: SessionMatrixState<String, Mix> = SessionMatrixState::new((0.75, 0.0));
    let load = m.load_into_slot(2, 3, "kick".to_string());
    assert_eq!(load, LoadRequest { clip_id: 1, track_index: 2, scene_index: 3 });
    assert_eq!(m.next_clip_id, 2);
    assert_eq!(m.grid[2][3].state, SlotState::Stopped);
    let clip = m.grid[2][3].clip.as_ref().unwrap();
    assert_eq!(clip.id, 1);
    assert!(!clip.loop_enabled);
    assert_eq!(clip.data, "kick");
}

#[test]
fn playing_loop_selects_whole_project_when_invalid() {
    let mut l = PlaylistLoop::new();
    l.prepare_playing_loop(10_000);
    assert_eq!((l.loop_start_ticks, l.loop_end_ticks), (0, 10_000));
    assert!(l.loop_region_active);
    assert_eq!((l.loop_preview_start_ticks, l.loop_preview_end_ticks), (0, 10_000));

    let mut short = PlaylistLoop::new();
    short.prepare_playing_loop(100);
    assert_eq!((short.loop_start_ticks, short.loop_end_ticks), (0, 3840));

    let mut valid = PlaylistLoop::new();
    valid.loop_start_ticks = 960;
    valid.loop_end_ticks = 2880;
    valid.loop_region_active = true;
    valid.prepare_playing_loop(100_000);
    assert_eq!((valid.loop_start_ticks, valid.loop_end_ticks), (960, 2880));
    assert_eq!(valid.desired_global_loop(true), (true, 960, 2880));
    assert_eq!(valid.desired_global_loop(false), (false, 0, 0));
    assert_eq!(PlaylistLoop::new().desired_global_loop(true), (false, 0, 0));
}

#[test]
fn bracket_drag_moves_only_the_preview_until_released() {
    let mut l = PlaylistLoop::new();
    l.loop_start_ticks = 960;
    l.loop_end_ticks = 3840;
    l.loop_region_active = true;
    assert_eq!(l.bracket_region(), Some((960, 3840)));

    l.begin_bracket_drag(LoopDragHandle::Right);
    l.drag_right_bracket(6000, 960);
    assert_eq!(l.loop_preview_end_ticks, 5760);
    assert_eq!((l.loop_start_ticks, l.loop_end_ticks), (960, 3840));
    assert_eq!(l.shown_region(), (true, 960, 5760));

    // Dragged too far left: kept one beat after the start.
    l.drag_right_bracket(100, 960);
    assert_eq!(l.loop_preview_end_ticks, 1920);

    l.drag_right_bracket(7000, 960);
    l.finish_bracket_drag(960);
    assert_eq!((l.loop_start_ticks, l.loop_end_ticks), (960, 6720));
    assert!(!l.loop_dragging && !l.loop_preview_active);
    assert_eq!(l.loop_drag_handle, LoopDragHandle::Idle);
    assert!(l.loop_drag_completed_this_frame);
}

#[test]
fn left_bracket_stays_a_beat_before_the_end() {
    let mut l = PlaylistLoop::new();
    l.loop_start_ticks = 960;
    l.loop_end_ticks = 3840;
    l.loop_region_active = true;
    l.begin_bracket_drag(LoopDragHandle::Left);
    l.drag_left_bracket(5000, 0);
    assert_eq!((l.loop_preview_start_ticks, l.loop_preview_end_ticks), (2880, 3840));
    l.drag_left_bracket(0, 0);
    assert_eq!(l.loop_preview_start_ticks, 0);
    l.finish_bracket_drag(0);
    assert_eq!((l.loop_start_ticks, l.loop_end_ticks), (0, 3840));
}

#[test]
fn shift_drag_draws_a_new_selection() {
    let mut l = PlaylistLoop::new();
    l.drag_selection(1000, None, true, 960);
    assert_eq!((l.loop_preview_start_ticks, l.loop_preview_end_ticks), (960, 960));
    assert_eq!(l.loop_drag_handle, LoopDragHandle::Body);
    l.drag_selection(5000, Some(1000), false, 960);
    assert_eq!((l.loop_preview_start_ticks, l.loop_preview_end_ticks), (960, 4800));
    assert!(!l.loop_region_active);
    l.finish_selection_drag(Some((5000, 1000)), 960);
    assert_eq!((l.loop_start_ticks, l.loop_end_ticks), (960, 4800));
    assert!(l.loop_region_active && l.loop_drag_completed_this_frame);

    // A click without width becomes one bar.
    let mut c = PlaylistLoop::new();
    c.drag_selection(2000, None, true, 960);
    c.finish_selection_drag(None, 960);
    assert_eq!((c.loop_start_ticks, c.loop_end_ticks), (1920, 5760));
}

fn audio_clip(t: &mut Timeline<String>, track: usize, at: u64, len: u64, name: &str) -> usize {
    t.drop_audio_clip(track, at, 0, len, name.to_string())
}

#[test]
fn timeline_copy_paste_keeps_spacing() {
    let mut t: Timeline<String> = Timeline::new();
    let a = audio_clip(&mut t, 1, 1000, 500, "a");
    let b = audio_clip(&mut t, 2, 1600, 300, "b");
    let _c = audio_clip(&mut t, 1, 9000, 100, "c");
    t.click_clip(a, false);
    t.click_clip(b, true);
    assert!(t.is_selected(a) && t.is_selected(b));
    t.copy_selection();
    assert_eq!(t.clipboard.len(), 2);
    t.playhead_tick = 20_000;
    t.paste();
    assert_eq!(t.clips.len(), 5);
    assert_eq!((t.clips[3].id, t.clips[3].start_tick, t.clips[3].track), (4, 20_000, 1));
    assert_eq!((t.clips[4].id, t.clips[4].start_tick, t.clips[4].track), (5, 20_600, 2));
    assert_eq!(t.clips[4].data, "b");
    assert_eq!(t.selected_clips, vec![4, 5]);
    assert_eq!(t.next_clip_id, 6);
}

#[test]
fn timeline_duplicate_lands_after_selection() {
    let mut t: Timeline<String> = Timeline::new();
    let a = audio_clip(&mut t, 1, 1000, 500, "a");
    let b = audio_clip(&mut t, 1, 1600, 300, "b");
    t.click_clip(a, false);
    t.click_clip(b, true);
    t.duplicate_selection();
    // Block from 1000 to 1900: copies move by 900.
    assert_eq!(t.clips[2].start_tick, 1900);
    assert_eq!(t.clips[3].start_tick, 2500);
    assert_eq!(t.selected_clips, vec![3, 4]);
}

#[test]
fn timeline_cut_delete_and_toggle() {
    let mut t: Timeline<String> = Timeline::new();
    let a = audio_clip(&mut t, 1, 0, 100, "a");
    let b = audio_clip(&mut t, 1, 200, 100, "b");
    t.click_clip(a, false);
    t.click_clip(b, true);
    t.click_clip(a, true);
    assert_eq!(t.selected_clips, vec![b]);
    t.cut_selection();
    assert_eq!(t.clips.len(), 1);
    assert_eq!(t.clips[0].id, a);
    assert_eq!(t.clipboard[0].id, b);
    assert!(t.selected_clips.is_empty());
    t.delete_clip(a);
    assert!(t.clips.is_empty());
    // Deleting with nothing selected keeps the clips.
    let c = audio_clip(&mut t, 1, 0, 100, "c");
    t.delete_selection();
    assert_eq!(t.clips[0].id, c);
}

#[test]
fn timeline_trims_keep_audio_in_place() {
    let mut t: Timeline<String> = Timeline::new();
    audio_clip(&mut t, 1, 960, 3840, "a");
    t.trim_left(0, 1900, 960);
    assert_eq!((t.clips[0].start_tick, t.clips[0].duration_ticks), (1920, 2880));
    assert_eq!(t.clips[0].audio, Some(AudioSpan { sample_offset_ticks: 960, total_sample_ticks: 3840 }));
    // Not before the sample's start.
    t.trim_left(0, 100, 960);
    assert_eq!(t.clips[0].start_tick, 1920);
    t.trim_left(0, 1000, 960);
    assert_eq!((t.clips[0].start_tick, t.clips[0].duration_ticks), (960, 3840));
    assert_eq!(t.clips[0].audio.unwrap().sample_offset_ticks, 0);
    // Right edge: no further than the sample.
    t.trim_right(0, 100_000, 0);
    assert_eq!(t.clips[0].duration_ticks, 3840);
    t.trim_right(0, 1500, 0);
    assert_eq!(t.clips[0].duration_ticks, 540);
    t.move_clip(0, 5000, 960, Some(3));
    assert_eq!((t.clips[0].start_tick, t.clips[0].track), (4800, 3));
}

#[test]
fn timeline_slice_is_seamless() {
    let mut t: Timeline<String> = Timeline::new();
    audio_clip(&mut t, 1, 960, 3840, "a");
    assert_eq!(t.slice_clip(0, 960, 0), None);
    let right = t.slice_clip(0, 2000, 0);
    assert_eq!(right, Some(2));
    assert_eq!((t.clips[0].start_tick, t.clips[0].duration_ticks), (960, 1040));
    let r: &TimelineClip<String> = &t.clips[1];
    assert_eq!((r.start_tick, r.duration_ticks), (2000, 2800));
    assert_eq!(r.audio, Some(AudioSpan { sample_offset_ticks: 1040, total_sample_ticks: 3840 }));
    assert_eq!(r.data, "a");
    assert_eq!(t.spans(), vec![(960, 1040), (2000, 2800)]);
}

#[test]
fn any_playing_reports_a_playing_pad() {
    let mut m: SessionMatrixState<String, Mix> = SessionMatrixState::new((0.75, 0.0));
    assert!(!m.any_playing());
    m.grid[5][7].state = SlotState::Playing;
    assert!(m.any_playing());
}

fn strips() -> Vec<MixerStrip<Mix>> {
    vec![
        MixerStrip::new(0, "MASTER".to_string(), true, (0.75, 0.0)),
        MixerStrip::new(1, "TRACK 01".to_string(), false, (0.75, 0.0)),
        MixerStrip::new(2, "TRACK 02".to_string(), false, (0.75, 0.0)),
        MixerStrip::new(3, "TRACK 03".to_string(), false, (0.75, 0.0)),
    ]
}

#[test]
fn arrows_move_selection_and_shift_moves_strips() {
    let mut s = strips();
    assert_eq!(navigate_strips(&mut s, 2, true, false, false), 1);
    assert_eq!(navigate_strips(&mut s, 0, true, false, false), 0);
    assert_eq!(navigate_strips(&mut s, 3, false, true, false), 3);
    assert_eq!(navigate_strips(&mut s, 1, false, true, false), 2);
    // Shift+Left on strip 2 swaps it with strip 1.
    assert_eq!(navigate_strips(&mut s, 2, true, false, true), 1);
    assert_eq!((s[1].id, s[2].id), (2, 1));
    // Shift+Left on strip 1 never moves it onto the master.
    assert_eq!(navigate_strips(&mut s, 1, true, false, true), 1);
    assert!(s[0].is_master);
    // Shift+Right on strip 1 swaps it with strip 2.
    assert_eq!(navigate_strips(&mut s, 1, false, true, true), 2);
    assert_eq!((s[1].id, s[2].id), (1, 2));
    // The master does not move right.
    assert_eq!(navigate_strips(&mut s, 0, false, true, true), 0);
    assert!(s[0].is_master);
}

#[test]
fn add_and_remove_strips() {
    let mut s = strips();
    assert_eq!(add_strip(&mut s, (0.75, 0.0)), 4);
    assert_eq!(s[4].name, "Track 04");
    s[4].id = 11;
    assert_eq!(add_strip(&mut s, (0.75, 0.0)), 12);
    assert_eq!(s[5].name, "Track 12");
    assert_eq!(remove_last_strip(&mut s, 5), 4);
    assert_eq!(s.len(), 5);
    assert_eq!(remove_last_strip(&mut s, 1), 1);
    let mut one = vec![MixerStrip::new(0, "MASTER".to_string(), true, (0.75, 0.0))];
    assert_eq!(remove_last_strip(&mut one, 0), 0);
    assert_eq!(one.len(), 1);
}

#[test]
fn transport_buttons() {
    let mut t = TransportPosition::new();
    t.sample_count = 4410;
    let reqs = press_play(&mut t, AppMode::OpenStudio);
    assert_eq!(t.playback_state, TransportPlaybackState::Playing);
    assert_eq!(
        reqs,
        vec![
            TransportRequest::StopPreview,
            TransportRequest::SyncBpm,
            TransportRequest::SyncPlaylistClips,
            TransportRequest::Seek(4410),
            TransportRequest::Play,
        ]
    );
    assert_eq!(press_pause(&mut t), vec![TransportRequest::Pause]);
    assert_eq!(t.playback_state, TransportPlaybackState::Paused);
    assert_eq!(
        press_pause(&mut t),
        vec![TransportRequest::StopPreview, TransportRequest::SyncBpm, TransportRequest::Play]
    );
    assert_eq!(t.playback_state, TransportPlaybackState::Playing);
    assert_eq!(press_stop(&mut t), vec![TransportRequest::Stop]);
    assert_eq!((t.playback_state, t.sample_count), (TransportPlaybackState::Stopped, 0));
    assert!(press_pause(&mut t).is_empty());
    t.sample_count = 99;
    assert_eq!(press_rewind(&mut t), vec![TransportRequest::Seek(0)]);
    assert_eq!(t.sample_count, 0);

    let live = press_play(&mut t, AppMode::OpenLive);
    assert_eq!(live[2], TransportRequest::SetAppMode(false));

    let mut mode = AppMode::OpenLive;
    assert!(select_mode(&mut mode, &mut t, AppMode::OpenLive).is_empty());
    assert_eq!(t.playback_state, TransportPlaybackState::Playing);
    t.sample_count = 500;
    let reqs = select_mode(&mut mode, &mut t, AppMode::OpenStudio);
    assert_eq!(reqs, vec![TransportRequest::Stop, TransportRequest::SetAppMode(true)]);
    assert_eq!(mode, AppMode::OpenStudio);
    assert_eq!((t.playback_state, t.sample_count), (TransportPlaybackState::Stopped, 0));
}
