//! The engine's audible behaviour block by block, driven through the
//! library's voice decisions: each output frame reads what `studio_index`
//! (OpenStudio) or `live_frame` (OpenLive) says, and the block ends with
//! `advance_block`. A frame is audible when some clip reads a sample.

use hikaru::engine::{EngineMode, LiveFrame, VoiceEngine};
use hikaru::transport::TransportPlaybackState;

const SR: f32 = 44100.0;

/// Frames of one bar at 44100 Hz and the default 128 BPM, rounded.
fn bar_frames() -> u64 {
    let samples_per_beat = (44100.0f64 * 60.0) / 128.0;
    (samples_per_beat * 4.0).round() as u64
}

fn secs_to_frames(secs: f32) -> u64 {
    (secs * SR) as u64
}

fn engine() -> VoiceEngine<Vec<f32>> {
    VoiceEngine::new()
}

fn add(engine: &mut VoiceEngine<Vec<f32>>, samples: Vec<f32>, duration_secs: f32) {
    let n = samples.len();
    let duration = if duration_secs > 0.0 { Some(secs_to_frames(duration_secs)) } else { None };
    engine.add_clip(1, 0, 0, samples, n, 0, duration, 0, 2, false);
}

/// Renders one block; returns, per frame, the left-sample index read (the
/// first audible clip's), if any.
fn render(engine: &mut VoiceEngine<Vec<f32>>, frames: u64) -> Vec<Option<usize>> {
    let mut out = vec![None; frames as usize];
    if engine.transport.playback_state != TransportPlaybackState::Playing {
        return out;
    }
    let start = engine.transport.sample_count;
    let abs_start = engine.absolute_frame;
    let transport = engine.transport;
    let mode = engine.mode;
    for clip in engine.clips.iter_mut() {
        if mode == EngineMode::OpenStudio {
            for f in 0..frames {
                let g = transport.wrap_sample_count(start + f);
                if let Some(idx) = clip.studio_index(g) {
                    if out[f as usize].is_none() {
                        out[f as usize] = Some(idx);
                    }
                }
            }
        } else {
            if !clip.is_playing {
                continue;
            }
            for f in 0..frames {
                match clip.live_frame(abs_start + f) {
                    LiveFrame::Finished => break,
                    LiveFrame::Silent => {}
                    LiveFrame::Plain { index } | LiveFrame::Crossfade { index, .. } => {
                        if out[f as usize].is_none() {
                            out[f as usize] = Some(index);
                        }
                    }
                }
            }
        }
    }
    engine.advance_block(frames);
    out
}

fn audible(engine: &mut VoiceEngine<Vec<f32>>, frames: u64) -> usize {
    let mut count = 0;
    let mut remaining = frames;
    while remaining > 0 {
        let step = remaining.min(512);
        count += render(engine, step).iter().filter(|r| r.is_some()).count();
        remaining -= step;
    }
    count
}

fn ramp(n: u64) -> Vec<f32> {
    let mut samples = Vec::with_capacity((n * 2) as usize);
    for i in 0..n {
        let v = i as f32 / n as f32;
        samples.push(v);
        samples.push(v);
    }
    samples
}

#[test]
fn global_loop_wraps_in_engine_not_gui() {
    let mut e = engine();
    e.play();
    e.set_global_loop(0, 44100, true);
    for _ in 0..100 {
        render(&mut e, 512);
    }
    assert_eq!(e.transport.sample_count, 51200 - 44100);
}

#[test]
fn global_loop_disabled_never_wraps() {
    let mut e = engine();
    e.play();
    for _ in 0..100 {
        render(&mut e, 512);
    }
    assert_eq!(e.transport.sample_count, 51200);
}

#[test]
fn openlive_bar10_is_silent_with_15bar_time_selection() {
    let mut e = engine();
    e.set_mode(EngineMode::OpenLive);
    let nine_bars = bar_frames() * 9;
    add(&mut e, vec![0.5f32; (nine_bars as usize) * 2], 0.0);
    assert!(!e.clips[0].has_valid_clip_loop());
    e.set_global_loop(0, bar_frames() * 15, true);
    e.trigger_clip(0, 0);
    e.play();
    audible(&mut e, nine_bars);
    assert_eq!(audible(&mut e, 512), 0);
    assert!(!e.clips[0].is_playing);
}

#[test]
fn openlive_short_time_selection_does_not_extend_voice() {
    let mut e = engine();
    e.set_mode(EngineMode::OpenLive);
    let nine_bars = bar_frames() * 9;
    add(&mut e, vec![0.5f32; (nine_bars as usize) * 2], 0.0);
    e.set_global_loop(0, bar_frames() * 4, true);
    e.trigger_clip(0, 0);
    e.play();
    let mut remaining = bar_frames() * 10;
    let mut last = 1;
    while remaining > 0 {
        let step = remaining.min(512);
        last = render(&mut e, step).iter().filter(|r| r.is_some()).count();
        remaining -= step;
    }
    assert_eq!(last, 0);
    assert!(!e.clips[0].is_playing);
}

#[test]
fn openlive_explicit_clip_loop_keeps_sounding_past_bar9() {
    let mut e = engine();
    e.set_mode(EngineMode::OpenLive);
    let nine_bars = bar_frames() * 9;
    add(&mut e, vec![0.5f32; (nine_bars as usize) * 2], 0.0);
    let end = secs_to_frames(bar_frames() as f32 / SR);
    e.set_clip_loop(0, 0, 0, end, true);
    assert!(e.clips[0].has_valid_clip_loop());
    e.set_global_loop(0, bar_frames() * 15, true);
    e.trigger_clip(0, 0);
    e.play();
    let mut remaining = bar_frames() * 10;
    let mut last = (0, 0);
    while remaining > 0 {
        let step = remaining.min(512);
        let reads = render(&mut e, step);
        last = (reads.iter().filter(|r| r.is_some()).count(), reads.len());
        remaining -= step;
    }
    assert_eq!(last.0, last.1);
    assert!(e.clips[0].is_playing);
}

#[test]
fn openlive_trigger_starts_at_sample_zero() {
    for flow in 0..3 {
        let mut e = engine();
        e.set_mode(EngineMode::OpenLive);
        add(&mut e, ramp(8192), 0.0);
        match flow {
            0 => {
                e.trigger_clip(0, 0);
                e.play();
            }
            1 => {
                e.play();
                audible(&mut e, 200_000);
                e.trigger_clip(0, 0);
            }
            _ => {
                e.trigger_clip(0, 0);
                e.play();
                audible(&mut e, 1000);
                e.stop();
                e.trigger_clip(0, 0);
                e.trigger_clip(0, 0);
                e.play();
            }
        }
        let reads = render(&mut e, 512);
        for f in 0..512usize {
            assert_eq!(reads[f], Some(f * 2), "flow {}: frame {}", flow, f);
        }
    }
}

#[test]
fn openlive_strict_close_past_native_length() {
    let mut e = engine();
    e.set_mode(EngineMode::OpenLive);
    let n = 4096u64;
    add(&mut e, vec![0.5f32; (n * 2) as usize], 0.0);
    e.trigger_clip(0, 0);
    e.play();
    assert_eq!(audible(&mut e, n), n as usize);
    for _ in 0..3 {
        assert_eq!(audible(&mut e, 512), 0);
    }
    assert!(!e.clips[0].is_playing);
}

#[test]
fn openstudio_bar1_starts_at_sample_zero_and_ends_silent() {
    let mut e = engine();
    e.set_mode(EngineMode::OpenStudio);
    let n = 4096u64;
    add(&mut e, ramp(n), n as f32 / SR);
    e.transport.sample_count = 0;
    e.play();
    let reads = render(&mut e, 512);
    for f in 0..512usize {
        assert_eq!(reads[f], Some(f * 2));
    }
    let mut remaining = n;
    while remaining > 0 {
        let step = remaining.min(512);
        render(&mut e, step);
        remaining -= step;
    }
    assert_eq!(audible(&mut e, 512), 0);
}

/// A five-bar clip, triggered at sample 0 in OpenLive, with an optional
/// global loop; returns the engine, the start of bar 5 and of bar 8.
fn engine_with_5bar_clip(mode: EngineMode, global_loop: Option<(u64, u64)>) -> (VoiceEngine<Vec<f32>>, u64, u64) {
    let spb = (44100.0f64 * 60.0) / 128.0 * 4.0;
    let bar5_start = (spb * 4.0).round() as u64;
    let bar8_end = (spb * 7.0).round() as u64;
    let five_bars = bar5_start;
    let mut e = engine();
    e.set_mode(mode);
    let duration_secs = five_bars as f32 / 44100.0;
    add(&mut e, vec![0.5f32; (five_bars as usize) * 2], duration_secs);
    assert!(!e.clips[0].has_valid_clip_loop());
    if mode == EngineMode::OpenLive {
        e.transport.sample_count = 0;
        e.trigger_clip(0, 0);
        assert!(e.clips[0].is_playing);
    }
    if let Some((s, end)) = global_loop {
        e.set_global_loop(s, end, true);
    }
    e.play();
    assert_eq!(e.transport.playback_state, TransportPlaybackState::Playing);
    (e, bar5_start, bar8_end)
}

/// Audible frames among `frames` frames rendered from `from` on (reached
/// by rendering without a global loop, by moving both clocks with one).
fn audible_in_range(e: &mut VoiceEngine<Vec<f32>>, from: u64, frames: u64) -> usize {
    if !e.transport.has_valid_loop() {
        while e.transport.sample_count < from {
            let step = (from - e.transport.sample_count).min(512);
            render(e, step);
        }
    } else {
        e.transport.sample_count = from;
        e.absolute_frame = from;
    }
    audible(e, frames)
}

#[test]
fn repro_openstudio_bars5_to_8_are_silent_no_loop() {
    let (mut e, bar5, bar8) = engine_with_5bar_clip(EngineMode::OpenStudio, None);
    assert_eq!(audible_in_range(&mut e, bar5, bar8 - bar5), 0);
}

#[test]
fn repro_openstudio_bars5_to_8_silent_with_time_selection_loop() {
    let spb = (44100.0f64 * 60.0) / 128.0 * 4.0;
    let bar5 = (spb * 4.0).round() as u64;
    let bar8 = (spb * 7.0).round() as u64;
    let (mut e, _, _) = engine_with_5bar_clip(EngineMode::OpenStudio, Some((bar5, bar8)));
    assert_eq!(audible_in_range(&mut e, bar5, bar8 - bar5), 0);
}

#[test]
fn repro_openlive_bars5_to_8_are_silent_no_clip_loop() {
    let (mut e, bar5, bar8) = engine_with_5bar_clip(EngineMode::OpenLive, None);
    let t = e.transport;
    assert_eq!(e.clips[0].voice_frame(bar5, &t), None);
    assert_eq!(e.clips[0].voice_frame(bar5 + 1000, &t), None);
    assert_eq!(audible_in_range(&mut e, bar5, bar8 - bar5), 0);
}

#[test]
fn repro_openlive_bars5_to_8_silent_with_time_selection_loop() {
    let spb = (44100.0f64 * 60.0) / 128.0 * 4.0;
    let bar5 = (spb * 4.0).round() as u64;
    let bar8 = (spb * 7.0).round() as u64;
    let (mut e, _, _) = engine_with_5bar_clip(EngineMode::OpenLive, Some((bar5, bar8)));
    assert_eq!(audible_in_range(&mut e, bar5, bar8 - bar5), 0);
}

#[test]
fn bar6_is_minus_inf_db_no_ghost_voice() {
    for mode in [EngineMode::OpenStudio, EngineMode::OpenLive] {
        let (mut e, bar5, _) = engine_with_5bar_clip(mode, None);
        let spb = (44100.0f64 * 60.0) / 128.0 * 4.0;
        let bar6 = bar5 + (spb.round() as u64);
        if mode == EngineMode::OpenLive {
            audible(&mut e, bar6);
        } else {
            e.transport.sample_count = bar6;
        }
        assert_eq!(audible(&mut e, 512), 0, "bar 6 in {:?}", mode);
        if mode == EngineMode::OpenLive {
            assert!(!e.clips[0].is_playing);
        }
    }
}
