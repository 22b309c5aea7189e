use hikaru::clip::{Clip, ClipState};
use hikaru::matrix::{TrackMatrix, MAX_SCENES, MAX_TRACKS};

#[test]
fn finished_voice_deactivates_session_slot() {
    let mut matrix = TrackMatrix::new();
    let mut clip = Clip::new(1, 7);
    clip.start_sample = 0;
    clip.set_source_length_frames(1_000);
    clip.set_state(ClipState::Playing);
    matrix.slots[0][0] = Some(clip);

    assert_eq!(matrix.poll_finished_voices(999, None), 0);
    assert_eq!(matrix.slots[0][0].as_ref().unwrap().get_state(), ClipState::Playing);
    assert_eq!(matrix.poll_finished_voices(1_000, None), 1);
    assert_eq!(matrix.slots[0][0].as_ref().unwrap().get_state(), ClipState::Stopped);
    matrix.slots[0][0].as_mut().unwrap().set_state(ClipState::Playing);
    assert_eq!(matrix.poll_finished_voices(5_000, Some((4_000, 7_000))), 1);
    assert_eq!(matrix.slots[0][0].as_ref().unwrap().get_state(), ClipState::Stopped);
}

#[test]
fn looped_clip_keeps_slot_playing() {
    let mut matrix = TrackMatrix::new();
    let mut clip = Clip::new(2, 7);
    clip.start_sample = 0;
    clip.set_source_length_frames(1_000);
    clip.loop_enabled = true;
    clip.set_loop_points(200, 800);
    clip.set_state(ClipState::Playing);
    matrix.slots[0][0] = Some(clip);
    assert_eq!(matrix.poll_finished_voices(5_000, None), 0);
    assert_eq!(matrix.slots[0][0].as_ref().unwrap().get_state(), ClipState::Playing);
}

#[test]
fn new_matrix_has_fixed_empty_shape() {
    let matrix = TrackMatrix::new();
    assert_eq!(matrix.slots.len(), MAX_TRACKS);
    assert!(matrix.slots.iter().all(|row| row.len() == MAX_SCENES && row.iter().all(|s| s.is_none())));
}

#[test]
fn trigger_scene_queues_only_that_row() {
    let mut matrix = TrackMatrix::new();
    matrix.slots[0][3] = Some(Clip::new(1, 1));
    matrix.slots[5][3] = Some(Clip::new(2, 2));
    matrix.slots[5][4] = Some(Clip::new(3, 3));
    matrix.trigger_scene(3);
    assert_eq!(matrix.slots[0][3].as_ref().unwrap().get_state(), ClipState::Queued);
    assert_eq!(matrix.slots[5][3].as_ref().unwrap().get_state(), ClipState::Queued);
    assert_eq!(matrix.slots[5][4].as_ref().unwrap().get_state(), ClipState::Stopped);
    // Out of range: nothing happens.
    matrix.trigger_scene(MAX_SCENES);
    assert_eq!(matrix.slots[5][4].as_ref().unwrap().get_state(), ClipState::Stopped);
}

#[test]
fn second_poll_stops_nothing_and_alias_agrees() {
    let mut matrix = TrackMatrix::new();
    for t in 0..3 {
        let mut clip = Clip::new(t as u32, 7);
        clip.set_source_length_frames(100);
        clip.set_state(ClipState::Playing);
        matrix.slots[t][t] = Some(clip);
    }
    assert_eq!(matrix.deactivate_finished_slots(100, None), 3);
    assert_eq!(matrix.poll_finished_voices(100, None), 0);
}
