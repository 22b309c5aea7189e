use hikaru::explorer::{is_audio_file, NavigationHistory};
use hikaru::plugin::{ClapInstance, PluginHost};
use hikaru::preview::{PreviewBlock, PreviewCursor};
use hikaru::quantizer::QuantizationGrid;
use hikaru::settings::{output_device_names, AudioBackend, AudioSettingsState, HikaruDriver};

#[test]
fn audio_files_by_extension() {
    assert!(is_audio_file("/samples/kick.wav"));
    assert!(is_audio_file("/samples/Kick.WAV"));
    assert!(is_audio_file("loop.Flac"));
    assert!(is_audio_file("a/b/c.mp3"));
    assert!(is_audio_file("pad.aiff"));
    assert!(is_audio_file("lead.synth"));
    assert!(is_audio_file("x.ogg"));
    assert!(!is_audio_file("notes.txt"));
    assert!(!is_audio_file("wav"));
    assert!(!is_audio_file("/samples/"));
    assert!(!is_audio_file("song.wav.bak"));
}

#[test]
fn history_back_and_forward() {
    let mut h = NavigationHistory::new("/".to_string());
    h.go_back();
    assert_eq!(h.current, "/");
    h.navigate_to("/home".to_string());
    h.navigate_to("/home/music".to_string());
    assert_eq!(h.history_back, vec!["/".to_string(), "/home".to_string()]);
    h.go_back();
    assert_eq!(h.current, "/home");
    assert_eq!(h.history_forward, vec!["/home/music".to_string()]);
    h.go_forward();
    assert_eq!(h.current, "/home/music");
    assert!(h.history_forward.is_empty());
    h.go_back();
    h.navigate_to("/tmp".to_string());
    assert!(h.history_forward.is_empty());
    assert_eq!(h.history_back.last().unwrap(), "/home");
}

#[test]
fn clap_instance_named_by_file() {
    let p = ClapInstance::load("/usr/lib/clap/Surge XT.clap").unwrap();
    assert_eq!(p.get_name(), "Surge XT.clap");
    assert_eq!(ClapInstance::try_load("/opt/x/y.clap").unwrap().get_name(), "y.clap");
    assert!(ClapInstance::try_load("/").is_none());
    assert_eq!(PluginHost::search_paths(), vec!["~/.vst3", "/usr/lib/vst3", "~/.clap"]);
}

#[test]
fn settings_defaults() {
    let s = AudioSettingsState::default();
    assert!(!s.is_open);
    assert_eq!(s.selected_backend, AudioBackend::PipeWire);
    assert_eq!(s.selected_device, "Default Output Device");
    assert_eq!((s.sample_rate, s.buffer_size), (44100, 512));
    assert_eq!(s.available_devices.len(), 3);
    assert_eq!(HikaruDriver::new().name, "Hikaru Native ASIO/PipeWire Driver");
    assert_eq!(output_device_names(vec![]), vec!["Default Output Device".to_string()]);
    assert_eq!(output_device_names(vec!["hw:0".to_string()]), vec!["hw:0".to_string()]);
    assert_ne!(QuantizationGrid::Bar, QuantizationGrid::Immediate);
}

#[test]
fn preview_cursor_mono_and_stereo() {
    let mut p = PreviewCursor::new();
    assert_eq!(p.plan_block(8, 100).frames, 0);
    // Mono, 10 samples, 4 output frames per block.
    p.start(10, 1, 1);
    assert_eq!(p.plan_block(8, 10), PreviewBlock { first: 0, frames: 4, step: 1, stereo: false });
    assert_eq!(p.plan_block(8, 10), PreviewBlock { first: 4, frames: 4, step: 1, stereo: false });
    assert!(p.is_playing);
    assert_eq!(p.plan_block(8, 10), PreviewBlock { first: 8, frames: 2, step: 1, stereo: false });
    assert!(!p.is_playing);
    // Stereo: one pair per output frame (not half speed).
    p.start(8, 2, 2);
    assert_eq!(p.plan_block(8, 8), PreviewBlock { first: 0, frames: 4, step: 2, stereo: true });
    assert_eq!(p.cursor, 8);
    assert!(!p.is_playing);
    p.start(8, 2, 3);
    p.stop();
    assert_eq!((p.cursor, p.is_playing, p.generation), (0, false, 3));
}

#[test]
fn test_scan_paths() {
    let paths = PluginHost::search_paths();
    assert_eq!(paths, vec!["~/.vst3".to_string(), "/usr/lib/vst3".to_string(), "~/.clap".to_string()]);
}
