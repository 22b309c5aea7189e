use hikaru::clip::VoiceState;
use hikaru::engine::{EngineMode, LiveFrame, VoiceEngine, LOOP_XFADE_FRAMES};
use hikaru::transport::TransportPlaybackState;

fn stereo(frames: usize) -> (Vec<f32>, usize) {
    let v = vec![0.5f32; frames * 2];
    let n = v.len();
    (v, n)
}

fn test_engine() -> VoiceEngine<Vec<f32>> {
    VoiceEngine::new()
}

fn add(engine: &mut VoiceEngine<Vec<f32>>, id: usize, track: usize, scene: usize, frames: usize) {
    let (s, n) = stereo(frames);
    engine.add_clip(id, track, scene, s, n, 0, None, 0, 2, false);
}

#[test]
fn openlive_clip_duration_is_real_audio_length() {
    let mut engine = test_engine();
    engine.set_mode(EngineMode::OpenLive);
    add(&mut engine, 1, 0, 0, 44100);
    assert_eq!(engine.clips[0].duration_frames, 44100);
    assert_eq!(engine.clips[0].playback_length_frames(), 44100);
}

#[test]
fn trigger_clip_toggles_and_restarts_phase() {
    let mut engine = test_engine();
    engine.set_mode(EngineMode::OpenLive);
    engine.transport.sample_count = 8000;
    add(&mut engine, 1, 0, 0, 100);
    engine.trigger_clip(0, 0);
    assert!(engine.clips[0].is_playing);
    assert_eq!(engine.clips[0].start_frame, 8000);
    engine.trigger_clip(0, 0);
    assert!(!engine.clips[0].is_playing);
}

#[test]
fn trigger_scene_plays_whole_row() {
    let mut engine = test_engine();
    engine.set_mode(EngineMode::OpenLive);
    add(&mut engine, 1, 0, 0, 100);
    add(&mut engine, 2, 1, 0, 100);
    add(&mut engine, 3, 0, 1, 100);
    engine.trigger_scene(1);
    assert!(!engine.clips[0].is_playing);
    assert!(!engine.clips[1].is_playing);
    assert!(engine.clips[2].is_playing);
}

#[test]
fn voice_frame_mutes_past_natural_without_clip_loop() {
    let mut engine = test_engine();
    engine.set_mode(EngineMode::OpenLive);
    add(&mut engine, 1, 0, 0, 1000);
    let t = engine.transport;
    assert!(!engine.clips[0].has_valid_clip_loop());
    assert_eq!(engine.clips[0].voice_frame(0, &t), Some(0));
    assert_eq!(engine.clips[0].voice_frame(999, &t), Some(999));
    assert_eq!(engine.clips[0].voice_frame(1000, &t), None);
    assert_eq!(engine.clips[0].voice_frame(5000, &t), None);
}

#[test]
fn voice_frame_with_explicit_clip_loop_wraps() {
    let mut engine = test_engine();
    engine.set_mode(EngineMode::OpenLive);
    add(&mut engine, 1, 0, 0, 1000);
    // 0.25 s at 44100 Hz.
    engine.set_clip_loop(0, 0, 0, 11025, true);
    assert!(engine.clips[0].has_valid_clip_loop());
    let t = engine.transport;
    let wrapped = engine.clips[0].voice_frame(5000, &t).unwrap();
    assert!((0..1000).contains(&(wrapped as u64)));
}

#[test]
fn clip_loop_region_is_honored() {
    let mut engine = test_engine();
    engine.set_mode(EngineMode::OpenLive);
    add(&mut engine, 1, 0, 0, 44100);
    // 0.5 s at 44100 Hz.
    engine.set_clip_loop(0, 0, 0, 22050, true);
    let clip = &engine.clips[0];
    assert!(clip.has_valid_clip_loop());
    assert_eq!(clip.clip_loop_start, 0);
    assert_eq!(clip.clip_loop_end, 22050);
    assert_eq!(clip.playback_length_frames(), 22050);
    engine.set_clip_loop(0, 0, 0, 0, false);
    assert!(!engine.clips[0].has_valid_clip_loop());
    assert_eq!(engine.clips[0].playback_length_frames(), 44100);
}

#[test]
fn voice_elapsed_frames_tracks_linear_voice_clock() {
    let mut engine = test_engine();
    engine.set_mode(EngineMode::OpenLive);
    add(&mut engine, 1, 0, 0, 8192);
    assert_eq!(engine.voice_elapsed_frames(0, 0), None);
    assert_eq!(engine.voice_elapsed_frames(9, 9), None);
    engine.trigger_clip(0, 0);
    engine.transport.sample_count = 200_000;
    assert_eq!(engine.voice_elapsed_frames(0, 0), Some(0));
    engine.play();
    engine.advance_block(512);
    assert_eq!(engine.voice_elapsed_frames(0, 0), Some(512));
    engine.transport.sample_count = 0;
    assert_eq!(engine.voice_elapsed_frames(0, 0), Some(512));
}

#[test]
fn global_loop_wraps_cursor_at_block_end() {
    let mut engine = test_engine();
    engine.play();
    engine.set_global_loop(0, 44100, true);
    for _ in 0..100 {
        engine.advance_block(512);
    }
    assert_eq!(engine.transport.sample_count, 51200 - 44100);
    assert_eq!(engine.absolute_frame, 51200);
}

#[test]
fn cursor_runs_free_without_global_loop() {
    let mut engine = test_engine();
    engine.play();
    for _ in 0..100 {
        engine.advance_block(512);
    }
    assert_eq!(engine.transport.sample_count, 51200);
    engine.pause();
    engine.advance_block(512);
    assert_eq!(engine.transport.sample_count, 51200);
    engine.stop();
    assert_eq!(engine.transport.sample_count, 0);
    assert_eq!(engine.transport.playback_state, TransportPlaybackState::Stopped);
}

#[test]
fn live_voice_sleeps_past_its_audio_even_with_time_selection() {
    let mut engine = test_engine();
    engine.set_mode(EngineMode::OpenLive);
    add(&mut engine, 1, 0, 0, 1000);
    engine.set_global_loop(0, 400, true);
    engine.trigger_clip(0, 0);
    engine.play();
    let clip = &mut engine.clips[0];
    assert_eq!(clip.live_frame(0), LiveFrame::Plain { index: 0 });
    assert_eq!(clip.live_frame(999), LiveFrame::Plain { index: 1998 });
    assert_eq!(clip.live_frame(1000), LiveFrame::Finished);
    assert!(!clip.is_playing);
    assert_eq!(clip.voice_state_linear(1000), VoiceState::Finished);
    engine.absolute_frame = 5000;
    assert!(!engine.voice_active(0, 0));
}

#[test]
fn live_loop_crossfades_at_wrap() {
    let mut engine = test_engine();
    engine.set_mode(EngineMode::OpenLive);
    add(&mut engine, 1, 0, 0, 1000);
    // A short loop jumps back less than half the emission window: no fade.
    engine.set_clip_loop(0, 0, 0, 100, true);
    engine.trigger_clip(0, 0);
    {
        let clip = &mut engine.clips[0];
        for f in 0..100u64 {
            assert_eq!(clip.live_frame(f), LiveFrame::Plain { index: 2 * f as usize });
        }
        assert_eq!(clip.live_frame(100), LiveFrame::Plain { index: 0 });
    }
    // A loop over the whole clip: the jump from 999 to 0 fades.
    engine.trigger_clip(0, 0);
    engine.set_clip_loop(0, 0, 0, 1000, true);
    engine.trigger_clip(0, 0);
    let clip = &mut engine.clips[0];
    clip.prev_frame = usize::MAX;
    for f in 0..1000u64 {
        assert_eq!(clip.live_frame(f), LiveFrame::Plain { index: 2 * f as usize });
    }
    assert_eq!(
        clip.live_frame(1000),
        LiveFrame::Crossfade { index: 0, prev_index: Some(1998), fade_pos: 0, fade_len: LOOP_XFADE_FRAMES }
    );
    assert_eq!(
        clip.live_frame(1001),
        LiveFrame::Crossfade { index: 2, prev_index: Some(0), fade_pos: 1, fade_len: LOOP_XFADE_FRAMES }
    );
    assert!(clip.is_playing);
}

#[test]
fn studio_index_respects_window_and_offset() {
    let mut engine = test_engine();
    let (s, n) = stereo(1000);
    engine.add_clip(7, 0, 0, s, n, 100, Some(500), 10, 2, false);
    let clip = &engine.clips[0];
    assert_eq!(clip.sample_offset, 20);
    assert_eq!(clip.studio_index(99), None);
    assert_eq!(clip.studio_index(100), Some(20));
    assert_eq!(clip.studio_index(101), Some(22));
    assert_eq!(clip.studio_index(599), Some((10 + 499) * 2));
    assert_eq!(clip.studio_index(600), None);
}

#[test]
fn read_indices_follow_channels() {
    let mut engine = test_engine();
    add(&mut engine, 1, 0, 0, 4);
    let (m, n) = (vec![0.1f32; 3], 3usize);
    engine.add_clip(2, 0, 0, m, n, 0, None, 0, 1, false);
    let st = &engine.clips[0];
    assert_eq!(st.read_index(3), Some(6));
    assert_eq!(st.read_index_r(3), Some(7));
    assert_eq!(st.read_index(4), None);
    let mono = &engine.clips[1];
    assert_eq!(mono.read_index(2), Some(2));
    assert_eq!(mono.read_index_r(2), Some(2));
    assert_eq!(mono.read_index(3), None);
}

#[test]
fn add_replaces_by_key_and_remove_filters() {
    let mut engine = test_engine();
    add(&mut engine, 1, 0, 0, 10);
    add(&mut engine, 2, 1, 0, 10);
    add(&mut engine, 1, 2, 0, 20);
    // OpenStudio: same id replaces.
    assert_eq!(engine.clips.len(), 2);
    assert_eq!(engine.clips[0].track_index, 2);
    assert_eq!(engine.clips[0].natural_frames(), 20);
    engine.set_mode(EngineMode::OpenLive);
    add(&mut engine, 9, 1, 0, 30);
    assert_eq!(engine.clips.len(), 2);
    assert_eq!(engine.clips[1].id, 9);
    engine.remove_clip(0, 1, 0);
    assert_eq!(engine.clips.len(), 1);
    assert_eq!(engine.clips[0].id, 1);
    let (s, n) = stereo(5);
    engine.add_clip(4, 3, 3, s, n, 0, None, 0, 2, true);
    engine.retain_matrix_clips();
    assert_eq!(engine.clips.len(), 1);
    assert_eq!(engine.clips[0].id, 4);
}

#[test]
fn update_bounds_and_stop_track() {
    let mut engine = test_engine();
    add(&mut engine, 1, 0, 0, 1000);
    engine.update_clip_bounds(1, 0, 0, 4410, None, 3);
    assert_eq!(engine.clips[0].start_frame, 4410);
    assert_eq!(engine.clips[0].duration_frames, 1000);
    assert_eq!(engine.clips[0].sample_offset, 6);
    engine.update_clip_bounds(1, 0, 0, 0, Some(250), 0);
    assert_eq!(engine.clips[0].duration_frames, 250);
    assert_eq!(engine.clips[0].emission_len_frames(), 250);
    engine.set_mode(EngineMode::OpenLive);
    engine.trigger_clip(0, 0);
    assert!(engine.clips[0].is_playing);
    engine.stop_track(0);
    assert!(!engine.clips[0].is_playing);
}

#[test]
fn duplicate_scene_launch_does_not_restart() {
    let mut engine = test_engine();
    engine.set_mode(EngineMode::OpenLive);
    add(&mut engine, 1, 0, 0, 1000);
    engine.absolute_frame = 50;
    engine.transport.sample_count = 70;
    engine.trigger_scene(0);
    assert_eq!((engine.clips[0].start_frame, engine.clips[0].start_absolute), (70, 50));
    engine.transport.sample_count = 90;
    engine.trigger_scene(0);
    assert_eq!(engine.clips[0].start_frame, 70);
    engine.absolute_frame = 60;
    engine.trigger_scene(0);
    assert_eq!((engine.clips[0].start_frame, engine.clips[0].start_absolute), (90, 60));
}
