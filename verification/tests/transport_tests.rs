use hikaru::transport::{TransportPlaybackState, TransportPosition, DEFAULT_PPQN};

fn test_transport() -> TransportPosition {
    TransportPosition::new()
}

#[test]
fn loop_disabled_is_identity() {
    let t = test_transport();
    assert!(!t.has_valid_loop());
    assert_eq!(t.wrap_sample_count(1_000_000), 1_000_000);
}

#[test]
fn loop_wraps_into_region() {
    let mut t = test_transport();
    t.set_loop_region_samples(1000, 5000);
    t.set_loop_enabled(true);
    assert!(t.has_valid_loop());
    assert_eq!(t.loop_length_samples(), 4000);
    assert_eq!(t.wrap_sample_count(4999), 4999);
    assert_eq!(t.wrap_sample_count(5000), 1000);
    assert_eq!(t.wrap_sample_count(9000), 1000);
    assert_eq!(t.wrap_sample_count(9500), 1500);
}

#[test]
fn invalid_region_is_identity() {
    let mut t = test_transport();
    t.set_loop_region_samples(5000, 5000);
    t.set_loop_enabled(true);
    assert!(!t.has_valid_loop());
    assert_eq!(t.wrap_sample_count(6000), 6000);
}

#[test]
fn advance_only_while_playing() {
    let mut t = test_transport();
    t.advance(100);
    assert_eq!(t.sample_count, 0);
    t.playback_state = TransportPlaybackState::Playing;
    t.advance(100);
    t.advance(28);
    assert_eq!(t.sample_count, 128);
    t.playback_state = TransportPlaybackState::Paused;
    t.advance(5);
    assert_eq!(t.sample_count, 128);
    t.reset();
    assert_eq!(t.sample_count, 0);
    assert_eq!(t.ppqn(), DEFAULT_PPQN);
    assert_eq!(DEFAULT_PPQN, 960);
}

#[test]
fn new_transport_defaults() {
    let t = test_transport();
    assert_eq!(t.beats_per_bar, 4);
    assert_eq!(t.beat_division, 4);
    assert_eq!(t.playback_state, TransportPlaybackState::Stopped);
    assert_eq!(t.loop_length_samples(), 0);
}

#[test]
fn wrap_twice_is_wrap_once_and_reversed_region_has_no_length() {
    let mut t = test_transport();
    t.set_loop_region_samples(300, 700);
    t.set_loop_enabled(true);
    for pos in [0u64, 299, 300, 699, 700, 701, 12_345, u64::MAX] {
        let w = t.wrap_sample_count(pos);
        assert_eq!(t.wrap_sample_count(w), w);
        if pos >= 300 {
            assert!((300..700).contains(&w));
            assert_eq!((w - 300) % 400, (pos - 300) % 400);
        }
    }
    t.set_loop_region_samples(700, 300);
    assert_eq!(t.loop_length_samples(), 0);
    assert_eq!(t.wrap_sample_count(900), 900);
    t.set_loop_region_samples(300, 700);
    t.set_loop_enabled(false);
    assert_eq!(t.wrap_sample_count(900), 900);
}
