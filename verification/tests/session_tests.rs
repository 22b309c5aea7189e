use hikaru::engine::{EngineMode, VoiceEngine};
use hikaru::session::{
    poll_engine_slots, poll_finished_voices, LoadRequest, MatrixClip, MatrixClipboard, MatrixSlot,
    PadAction, SessionMatrixState, SlotState,
};

type Mix = (f32, f32);

fn session() -> SessionMatrixState<String, Mix> {
    SessionMatrixState::new((0.75, 0.0))
}

fn playing_state() -> SessionMatrixState<String, Mix> {
    let mut s = session();
    s.grid[0][0].state = SlotState::Playing;
    s
}

fn clip(id: usize, name: &str) -> MatrixClip<String> {
    MatrixClip { id, loop_start: 0, loop_end: 0, loop_enabled: false, data: name.to_string() }
}

#[test]
fn finished_voice_turns_pad_idle() {
    let mut s = playing_state();
    assert_eq!(poll_finished_voices(&mut s, |_, _| false), 1);
    assert_eq!(s.grid[0][0].state, SlotState::Stopped);
    assert_eq!(poll_finished_voices(&mut s, |_, _| false), 0);
}

#[test]
fn active_voice_keeps_green_on() {
    let mut s = playing_state();
    assert_eq!(poll_finished_voices(&mut s, |_, _| true), 0);
    assert_eq!(s.grid[0][0].state, SlotState::Playing);
}

#[test]
fn engine_voice_finished_at_bar5_turns_pad_off() {
    let mut engine: VoiceEngine<Vec<f32>> = VoiceEngine::new();
    engine.set_mode(EngineMode::OpenLive);
    let samples = vec![0.5f32; 1000 * 2];
    let n = samples.len();
    engine.add_clip(1, 0, 0, samples, n, 0, None, 0, 2, true);
    engine.trigger_clip(0, 0);
    assert!(engine.clips[0].is_playing);

    let mut s = playing_state();
    engine.absolute_frame = 999;
    assert_eq!(poll_engine_slots(&mut s, &engine), 0);
    assert_eq!(s.grid[0][0].state, SlotState::Playing);
    engine.absolute_frame = 5000;
    assert_eq!(poll_engine_slots(&mut s, &engine), 1);
    assert_eq!(s.grid[0][0].state, SlotState::Stopped);
}

#[test]
fn engine_is_playing_false_turns_pad_off() {
    let mut engine: VoiceEngine<Vec<f32>> = VoiceEngine::new();
    engine.set_mode(EngineMode::OpenLive);
    let samples = vec![0.5f32; 1000 * 2];
    let n = samples.len();
    engine.add_clip(1, 0, 0, samples, n, 0, None, 0, 2, true);
    let mut s = playing_state();
    assert_eq!(poll_engine_slots(&mut s, &engine), 1);
    assert_eq!(s.grid[0][0].state, SlotState::Stopped);
}

#[test]
fn default_session_is_eight_by_eight() {
    let s = session();
    assert_eq!(s.tracks.len(), 8);
    assert_eq!(s.scenes.len(), 8);
    assert_eq!(s.tracks[0].name, "Track 1");
    assert_eq!(s.tracks[7].name, "Track 8");
    assert_eq!(s.scenes[7].name, "Scene 8");
    assert_eq!(s.tracks[3].mix, (0.75, 0.0));
    assert!(s.grid.iter().all(|r| r.len() == 8 && r.iter().all(|p| p.state == SlotState::Empty && p.clip.is_none())));
    assert_eq!(s.next_clip_id, 1);
    assert!(s.selected_slot.is_none());
}

#[test]
fn tracks_and_scenes_grow_and_shrink() {
    let mut s = session();
    s.add_track((0.5, 10.0));
    assert_eq!(s.tracks.len(), 9);
    assert_eq!(s.tracks[8].name, "Audio 9");
    assert_eq!(s.grid[8].len(), 8);
    s.add_scene();
    assert_eq!(s.scenes[8].name, "Scene 9");
    assert!(s.grid.iter().all(|r| r.len() == 9));
    s.selected_slot = Some((8, 8));
    s.remove_scene();
    assert!(s.selected_slot.is_none());
    assert!(s.grid.iter().all(|r| r.len() == 8));
    s.selected_slot = Some((8, 2));
    s.remove_track();
    assert!(s.selected_slot.is_none());
    assert_eq!(s.grid.len(), 8);
    for _ in 0..20 {
        s.remove_track();
        s.remove_scene();
    }
    assert_eq!(s.tracks.len(), 1);
    assert_eq!(s.scenes.len(), 1);
    assert_eq!(s.grid.len(), 1);
    assert_eq!(s.grid[0].len(), 1);
}

#[test]
fn pad_press_is_exclusive_per_track() {
    let mut s = session();
    assert_eq!(s.trigger_pad(0, 0), PadAction::Nothing);
    s.grid[0][0] = MatrixSlot { state: SlotState::Stopped, clip: Some(clip(1, "a")) };
    s.grid[0][1] = MatrixSlot { state: SlotState::Playing, clip: Some(clip(2, "b")) };
    assert_eq!(s.trigger_pad(0, 0), PadAction::Started);
    assert_eq!(s.grid[0][0].state, SlotState::Playing);
    assert_eq!(s.grid[0][1].state, SlotState::Stopped);
    assert_eq!(s.trigger_pad(0, 0), PadAction::Stopped);
    assert_eq!(s.grid[0][0].state, SlotState::Stopped);
    s.grid[0][1].state = SlotState::QueuedToPlay;
    assert_eq!(s.trigger_pad(0, 1), PadAction::Stopped);
    assert_eq!(s.grid[0][1].state, SlotState::Stopped);
}

#[test]
fn scene_launch_plays_row_and_stops_rest_of_tracks() {
    let mut s = session();
    s.grid[0][2] = MatrixSlot { state: SlotState::Stopped, clip: Some(clip(1, "a")) };
    s.grid[0][5] = MatrixSlot { state: SlotState::Playing, clip: Some(clip(2, "b")) };
    s.grid[1][5] = MatrixSlot { state: SlotState::Playing, clip: Some(clip(3, "c")) };
    s.trigger_scene(2);
    assert_eq!(s.grid[0][2].state, SlotState::Playing);
    assert_eq!(s.grid[0][5].state, SlotState::Stopped);
    // Track 1 has nothing in scene 2: untouched.
    assert_eq!(s.grid[1][5].state, SlotState::Playing);
}

#[test]
fn clipboard_copy_cut_paste_duplicate() {
    let mut s = session();
    let mut cb: MatrixClipboard<String> = MatrixClipboard::new();
    assert!(!cb.has_content());
    assert_eq!(s.paste_slot(1, 1, &cb), None);
    s.grid[2][3] = MatrixSlot { state: SlotState::Playing, clip: Some(clip(40, "loop")) };
    s.copy_slot(2, 3, &mut cb);
    assert!(cb.has_content());
    let load = s.paste_slot(4, 4, &cb);
    assert_eq!(load, Some(LoadRequest { clip_id: 1, track_index: 4, scene_index: 4 }));
    assert_eq!(s.grid[4][4].state, SlotState::Stopped);
    assert_eq!(s.grid[4][4].clip.as_ref().unwrap().id, 1);
    assert_eq!(s.grid[4][4].clip.as_ref().unwrap().data, "loop");
    assert_eq!(s.next_clip_id, 2);
    let dup = s.duplicate_slot(2, 3);
    assert_eq!(dup, Some(LoadRequest { clip_id: 2, track_index: 2, scene_index: 4 }));
    assert_eq!(s.grid[2][4].state, SlotState::Playing);
    // Last scene: nothing to duplicate into.
    assert_eq!(s.duplicate_slot(2, 7), None);
    s.cut_slot(2, 3, &mut cb);
    assert_eq!(s.grid[2][3].state, SlotState::Empty);
    assert!(s.grid[2][3].clip.is_none());
    assert_eq!(cb.copied_slot.as_ref().unwrap().clip.as_ref().unwrap().id, 40);
    s.delete_slot(99, 99);
    cb.clear();
    assert!(!cb.has_content());
}

#[test]
fn matrix_clip_loop_helpers() {
    let mut c = clip(1, "x");
    assert_eq!(c.loop_length_ticks(), 0);
    assert!(!c.has_valid_clip_loop());
    c.loop_start = 960;
    c.loop_end = 3840;
    assert_eq!(c.loop_length_ticks(), 2880);
    assert!(!c.has_valid_clip_loop());
    c.loop_enabled = true;
    assert!(c.has_valid_clip_loop());
    c.loop_end = 100;
    assert_eq!(c.loop_length_ticks(), 0);
    assert!(!c.has_valid_clip_loop());
}
