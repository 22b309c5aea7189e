//! Application modes and the audio setup: backends, devices and the
//! default settings of the setup window.
use vstd::prelude::*;

verus! {

/// The two workspaces of the application.
#[derive(Debug, Clone, Copy, PartialEq, Eq, Structural)]
pub enum AppMode {
    OpenLive,
    OpenStudio,
}

/// The two views of the OpenLive workspace.
#[derive(Debug, Clone, Copy, PartialEq, Eq, Structural)]
pub enum OpenLiveView {
    SessionMatrix,
    ArrangerView,
}

/// The other OpenLive view.
pub open spec fn other_view(view: OpenLiveView) -> OpenLiveView {
    if view == OpenLiveView::SessionMatrix { OpenLiveView::ArrangerView } else { OpenLiveView::SessionMatrix }
}

/// The workspace and OpenLive view after the Tab key: in OpenLive it
/// switches between the session matrix and the arranger; in OpenStudio it
/// goes back to OpenLive, on the view last shown there.
pub open spec fn spec_view_after_tab(mode: AppMode, view: OpenLiveView) -> (AppMode, OpenLiveView) {
    match mode {
        AppMode::OpenLive => (AppMode::OpenLive, other_view(view)),
        AppMode::OpenStudio => (AppMode::OpenLive, view),
    }
}

/// The workspace and OpenLive view after the Tab key.
pub fn view_after_tab(mode: AppMode, view: OpenLiveView) -> (r: (AppMode, OpenLiveView))
    ensures
        r == spec_view_after_tab(mode, view),
{
    match mode {
        AppMode::OpenLive => {
            let next = match view {
                OpenLiveView::SessionMatrix => OpenLiveView::ArrangerView,
                OpenLiveView::ArrangerView => OpenLiveView::SessionMatrix,
            };
            (AppMode::OpenLive, next)
        },
        AppMode::OpenStudio => (AppMode::OpenLive, view),
    }
}

/// Pressing Tab twice in OpenLive shows the view it started on.
pub proof fn lemma_tab_twice_returns(view: OpenLiveView)
    ensures
        ({
            let once = spec_view_after_tab(AppMode::OpenLive, view);
            spec_view_after_tab(once.0, once.1)
        }) == (AppMode::OpenLive, view),
{
}

/// Panning laws offered by the mixer.
#[derive(Debug, Clone, Copy, PartialEq, Eq, Structural)]
pub enum PanMode {
    Stereo,
    MidSide,
}

/// Audio backends of the setup window.
#[derive(Clone, Copy, Debug, PartialEq, Eq, Structural)]
pub enum AudioBackend {
    PipeWire,
    Jack,
    Alsa,
    PulseAudio,
}

/// Audio backends a driver host can use.
#[derive(Clone, Copy, Debug, PartialEq, Eq, Structural)]
pub enum DriverType {
    PipeWire,
    Jack,
    Alsa,
    PulseAudio,
}

/// State of the audio setup window.
pub struct AudioSettingsState {
    pub is_open: bool,
    pub selected_backend: AudioBackend,
    pub selected_device: String,
    pub sample_rate: u32,
    pub buffer_size: u32,
    pub available_devices: Vec<String>,
}

impl Default for AudioSettingsState {
    /// Closed, PipeWire, the default device at 44100 Hz with 512-frame
    /// buffers, and the three stock device entries.
    fn default() -> (s: AudioSettingsState)
        ensures
            !s.is_open,
            s.selected_backend == AudioBackend::PipeWire,
            s.selected_device@ == "Default Output Device"@,
            s.sample_rate == 44100,
            s.buffer_size == 512,
            s.available_devices@.len() == 3,
            s.available_devices@[0]@ == "Default Output Device"@,
            s.available_devices@[1]@ == "ALSA: PulseAudio / PipeWire Sound Server"@,
            s.available_devices@[2]@ == "JACK Audio Connection Kit"@,
    {
        let mut devices: Vec<String> = Vec::new();
        devices.push("Default Output Device".to_owned());
        devices.push("ALSA: PulseAudio / PipeWire Sound Server".to_owned());
        devices.push("JACK Audio Connection Kit".to_owned());
        AudioSettingsState {
            is_open: false,
            selected_backend: AudioBackend::PipeWire,
            selected_device: "Default Output Device".to_owned(),
            sample_rate: 44100,
            buffer_size: 512,
            available_devices: devices,
        }
    }
}

/// The output devices to offer: the names found, or the default device
/// alone when none was found.
pub fn output_device_names(found: Vec<String>) -> (names: Vec<String>)
    ensures
        found@.len() > 0 ==> names@ == found@,
        found@.len() == 0 ==> names@.len() == 1 && names@[0]@ == "Default Output Device"@,
{
    let mut devices = found;
    if devices.len() == 0 {
        devices.push("Default Output Device".to_owned());
    }
    devices
}

/// The native driver.
pub struct HikaruDriver {
    pub name: String,
}

impl HikaruDriver {
    pub fn new() -> (d: HikaruDriver)
        ensures
            d.name@ == "Hikaru Native ASIO/PipeWire Driver"@,
    {
        HikaruDriver { name: "Hikaru Native ASIO/PipeWire Driver".to_owned() }
    }
}

} // verus!
