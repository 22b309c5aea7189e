use hikaru::clip::{Clip, ClipState, VoiceState, VoiceStatus};

#[test]
fn clip_length_is_dynamic_not_one_bar() {
    let mut clip = Clip::new(1, 7);
    assert_eq!(clip.loop_length_frames(), 0);
    clip.set_source_length_frames(153_600);
    assert_eq!(clip.loop_length_frames(), 153_600);
    clip.loop_enabled = true;
    clip.set_loop_points(10_000, 100_000);
    assert_eq!(clip.loop_length_frames(), 90_000);
}

#[test]
fn loop_clamped_to_real_length() {
    let mut clip = Clip::new(2, 7);
    clip.set_source_length_frames(50_000);
    clip.loop_enabled = true;
    clip.set_loop_points(10_000, 90_000);
    clip.set_source_length_frames(50_000);
    assert!(clip.loop_end <= 50_000);
}

#[test]
fn no_clip_loop_means_silence_past_source_length() {
    let mut clip = Clip::new(10, 7);
    assert!(!clip.has_valid_clip_loop());
    clip.start_sample = 0;
    clip.set_source_length_frames(1_000);
    assert_eq!(clip.resolve_voice_frame(0, None), Some(0));
    assert_eq!(clip.resolve_voice_frame(999, None), Some(999));
    assert_eq!(clip.resolve_voice_frame(1_000, None), None);
    assert_eq!(clip.resolve_voice_frame(5_000, None), None);
    assert_eq!(clip.resolve_voice_frame(5_000, Some((4_000, 7_000))), None);
}

#[test]
fn unknown_length_never_free_runs() {
    let mut clip = Clip::new(11, 7);
    clip.start_sample = 0;
    assert_eq!(clip.resolve_voice_frame(0, None), None);
    assert_eq!(clip.resolve_voice_frame(99_999, None), None);
}

#[test]
fn before_start_is_silence() {
    let mut clip = Clip::new(12, 7);
    clip.start_sample = 500;
    clip.set_source_length_frames(1_000);
    assert_eq!(clip.resolve_voice_frame(499, None), None);
    assert_eq!(clip.resolve_voice_frame(500, None), Some(0));
}

#[test]
fn explicit_clip_loop_wraps_inside_region() {
    let mut clip = Clip::new(13, 7);
    clip.start_sample = 0;
    clip.set_source_length_frames(1_000);
    clip.loop_enabled = true;
    clip.set_loop_points(200, 800);
    assert!(clip.has_valid_clip_loop());
    assert_eq!(clip.resolve_voice_frame(100, None), Some(100));
    let wrapped = clip.resolve_voice_frame(900, None).unwrap();
    assert!((200..800).contains(&wrapped));
    let synced = clip.resolve_voice_frame(900, Some((0, 10_000))).unwrap();
    assert!((200..800).contains(&synced));
}

#[test]
fn past_end_without_loop_returns_finished_and_stops_slot() {
    let mut clip = Clip::new(20, 7);
    clip.start_sample = 0;
    clip.set_source_length_frames(1_000);
    clip.set_state(ClipState::Playing);
    assert_eq!(clip.poll_voice(999, None), VoiceState::Active);
    assert_eq!(clip.get_state(), ClipState::Playing);
    let vs: VoiceStatus = clip.poll_voice(1_000, None);
    assert_eq!(vs, VoiceStatus::Finished);
    assert_eq!(clip.get_state(), ClipState::Stopped);
    clip.set_state(ClipState::Playing);
    assert_eq!(clip.poll_voice(5_000, Some((4_000, 7_000))), VoiceState::Finished);
    assert_eq!(clip.get_state(), ClipState::Stopped);
}

#[test]
fn looped_voice_never_stops_slot() {
    let mut clip = Clip::new(22, 7);
    clip.start_sample = 0;
    clip.set_source_length_frames(1_000);
    clip.loop_enabled = true;
    clip.set_loop_points(200, 800);
    clip.set_state(ClipState::Playing);
    assert_eq!(clip.poll_voice(5_000, None), VoiceState::Active);
    assert_eq!(clip.get_state(), ClipState::Playing);
}

#[test]
fn read_index_past_end_deactivates_playing_slot() {
    let mut clip = Clip::new(21, 7);
    clip.set_source_length_frames(4);
    clip.set_state(ClipState::Playing);
    // Stereo, 4 frames: frame 3 starts at sample 6.
    assert_eq!(clip.read_sample_index(3, 8, 2), Some(6));
    assert_eq!(clip.get_state(), ClipState::Playing);
    assert_eq!(clip.read_sample_index(4, 8, 2), None);
    assert_eq!(clip.get_state(), ClipState::Stopped);
}

#[test]
fn read_index_outside_buffer_is_silence() {
    let mut clip = Clip::new(23, 7);
    clip.set_source_length_frames(10);
    clip.set_state(ClipState::Playing);
    // Length says 10 frames but the buffer only holds 3 mono samples.
    assert_eq!(clip.read_sample_index(2, 3, 1), Some(2));
    assert_eq!(clip.read_sample_index(3, 3, 1), None);
    assert_eq!(clip.get_state(), ClipState::Stopped);
    // Zero channels read as mono.
    assert_eq!(clip.read_sample_index(1, 3, 0), Some(1));
}

#[test]
fn state_bytes_roundtrip() {
    assert_eq!(ClipState::from(0u8), ClipState::Stopped);
    assert_eq!(ClipState::from(1u8), ClipState::Queued);
    assert_eq!(ClipState::from(2u8), ClipState::Playing);
    assert_eq!(ClipState::from(3u8), ClipState::Stopping);
    assert_eq!(ClipState::from(200u8), ClipState::Stopped);
    for s in [ClipState::Stopped, ClipState::Queued, ClipState::Playing, ClipState::Stopping] {
        assert_eq!(ClipState::from_u8(s.to_u8()), s);
    }
}

#[test]
fn poll_twice_is_poll_once() {
    let mut clip = Clip::new(30, 7);
    clip.set_source_length_frames(100);
    clip.set_state(ClipState::Playing);
    assert_eq!(clip.poll_voice(150, None), VoiceState::Finished);
    assert_eq!(clip.get_state(), ClipState::Stopped);
    assert_eq!(clip.poll_voice(150, None), VoiceState::Finished);
    assert_eq!(clip.get_state(), ClipState::Stopped);
    // A queued slot is never touched by polling.
    clip.set_state(ClipState::Queued);
    clip.poll_voice(150, None);
    assert_eq!(clip.get_state(), ClipState::Queued);
}

#[test]
fn loop_clamp_drops_region_past_new_length() {
    let mut clip = Clip::new(31, 7);
    clip.loop_enabled = true;
    clip.set_loop_points(500, 900);
    clip.set_source_length_frames(400);
    assert_eq!((clip.loop_start, clip.loop_end), (0, 0));
    assert!(!clip.has_valid_clip_loop());
    assert_eq!(clip.loop_length_frames(), 400);
    clip.set_loop_points(300, 100);
    assert_eq!((clip.loop_start, clip.loop_end), (0, 0));
}

#[test]
fn effective_loop_end_clamps_to_length() {
    let mut clip = Clip::new(32, 7);
    clip.loop_enabled = true;
    clip.set_loop_points(10, 900);
    assert_eq!(clip.effective_loop_end(), 900);
    clip.total_frames = 500;
    assert_eq!(clip.effective_loop_end(), 500);
    // Past the clamped end the voice wraps in [10, 500).
    let f = clip.resolve_voice_frame(700, None).unwrap();
    assert_eq!(f, 10 + (700 - 10) % 490);
}

#[test]
fn next_frame_reads_the_voice_frame_and_stops_when_silent() {
    let mut clip = Clip::new(24, 7);
    clip.set_source_length_frames(4);
    clip.start_sample = 100;
    clip.set_state(ClipState::Playing);
    // Transport at 102: frame 2, stereo sample 4.
    assert_eq!(clip.next_frame_index(102, None, 8, 2), Some(4));
    assert_eq!(clip.get_state(), ClipState::Playing);
    // Before the start: silence, the slot stops.
    assert_eq!(clip.next_frame_index(50, None, 8, 2), None);
    assert_eq!(clip.get_state(), ClipState::Stopped);
}
