//! The preview's read plan, block by block (the samples themselves are
//! mixed by the application).

use hikaru::preview::{PreviewBlock, PreviewCursor};

#[test]
fn test_stop_resets() {
    let mut p = PreviewCursor::new();
    p.start(100, 1, 1);
    p.stop();
    assert!(!p.is_playing);
    assert_eq!(p.cursor, 0);
}

#[test]
fn test_mono_play_and_process() {
    let mut p = PreviewCursor::new();
    p.start(4, 1, 1);
    assert!(p.is_playing);
    // Eight output samples = four frames: each mono sample goes to both sides.
    assert_eq!(p.plan_block(8, 4), PreviewBlock { first: 0, frames: 4, step: 1, stereo: false });
    assert!(!p.is_playing);
    assert_eq!(p.cursor, 4);
}

#[test]
fn test_stereo_play_and_process() {
    let mut p = PreviewCursor::new();
    p.start(4, 2, 1);
    // Pairs [L, R] in order: samples 0..4 fill the four outputs.
    assert_eq!(p.plan_block(4, 4), PreviewBlock { first: 0, frames: 2, step: 2, stereo: true });
}

#[test]
fn test_stereo_not_half_speed() {
    let mut p = PreviewCursor::new();
    p.start(4, 2, 1);
    p.plan_block(4, 4);
    assert_eq!(p.cursor, 4);
}

#[test]
fn test_partial_process() {
    let mut p = PreviewCursor::new();
    p.start(10, 2, 1);
    assert_eq!(p.plan_block(4, 10).frames, 2);
    assert!(p.is_playing);
    assert_eq!(p.cursor, 4);
    let rest = p.plan_block(20, 10);
    assert_eq!(rest, PreviewBlock { first: 4, frames: 3, step: 2, stereo: true });
    assert!(!p.is_playing);
}

#[test]
fn test_new_preview_replaces_old() {
    let mut p = PreviewCursor::new();
    p.start(4, 2, 1);
    p.plan_block(4, 4);
    // A new sample starts over from its first pair.
    p.start(4, 2, 2);
    assert_eq!(p.plan_block(4, 4), PreviewBlock { first: 0, frames: 2, step: 2, stereo: true });
    assert_eq!(p.generation, 2);
}
