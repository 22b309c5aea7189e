//! The transport buttons of the header: what each press does to the
//! transport and, in order, what the engine must be told.
use vstd::prelude::*;
use crate::settings::AppMode;
use crate::transport::{TransportPlaybackState, TransportPosition};

verus! {

/// A request to the engine from a transport button.
#[derive(Clone, Copy, Debug, PartialEq, Eq, Structural)]
pub enum TransportRequest {
    /// Silence the browser preview.
    StopPreview,
    /// Send the current tempo.
    SyncBpm,
    /// Reload the arrangement's audio clips (OpenStudio).
    SyncPlaylistClips,
    /// Put the engine in OpenStudio (`true`) or OpenLive (`false`) mode.
    SetAppMode(bool),
    Seek(u64),
    Play,
    Pause,
    Stop,
}

pub open spec fn play_requests(mode: AppMode, sample_count: u64) -> Seq<TransportRequest> {
    seq![
        TransportRequest::StopPreview,
        TransportRequest::SyncBpm,
        if mode == AppMode::OpenStudio { TransportRequest::SyncPlaylistClips } else { TransportRequest::SetAppMode(false) },
        TransportRequest::Seek(sample_count),
        TransportRequest::Play,
    ]
}

/// Play: the transport plays from where it is; the preview stops, the
/// tempo is resent, the arrangement's clips are reloaded (OpenStudio) or
/// the engine is put in OpenLive mode, then the engine seeks and plays.
pub fn press_play(transport: &mut TransportPosition, mode: AppMode) -> (reqs: Vec<TransportRequest>)
    ensures
        *final(transport) == (TransportPosition { playback_state: TransportPlaybackState::Playing, ..*old(transport) }),
        reqs@ == play_requests(mode, old(transport).sample_count),
{
    transport.playback_state = TransportPlaybackState::Playing;
    let mut reqs: Vec<TransportRequest> = Vec::new();
    reqs.push(TransportRequest::StopPreview);
    reqs.push(TransportRequest::SyncBpm);
    match mode {
        AppMode::OpenStudio => reqs.push(TransportRequest::SyncPlaylistClips),
        AppMode::OpenLive => reqs.push(TransportRequest::SetAppMode(false)),
    }
    reqs.push(TransportRequest::Seek(transport.sample_count));
    reqs.push(TransportRequest::Play);
    assert(reqs@ =~= play_requests(mode, old(transport).sample_count));
    reqs
}

/// The transport after Pause: playing pauses, paused resumes, stopped
/// stays.
pub open spec fn after_pause(t: TransportPosition) -> TransportPosition {
    match t.playback_state {
        TransportPlaybackState::Playing => TransportPosition { playback_state: TransportPlaybackState::Paused, ..t },
        TransportPlaybackState::Paused => TransportPosition { playback_state: TransportPlaybackState::Playing, ..t },
        TransportPlaybackState::Stopped => t,
    }
}

/// What the engine is told on Pause.
pub open spec fn pause_requests(t: TransportPosition) -> Seq<TransportRequest> {
    match t.playback_state {
        TransportPlaybackState::Playing => seq![TransportRequest::Pause],
        TransportPlaybackState::Paused => seq![TransportRequest::StopPreview, TransportRequest::SyncBpm, TransportRequest::Play],
        TransportPlaybackState::Stopped => Seq::empty(),
    }
}

/// Pause toggles: a playing transport pauses; a paused one resumes (the
/// preview stops and the tempo is resent first); a stopped one stays.
pub fn press_pause(transport: &mut TransportPosition) -> (reqs: Vec<TransportRequest>)
    ensures
        *final(transport) == after_pause(*old(transport)),
        reqs@ == pause_requests(*old(transport)),
{
    let mut reqs: Vec<TransportRequest> = Vec::new();
    match transport.playback_state {
        TransportPlaybackState::Playing => {
            transport.playback_state = TransportPlaybackState::Paused;
            reqs.push(TransportRequest::Pause);
        },
        TransportPlaybackState::Paused => {
            transport.playback_state = TransportPlaybackState::Playing;
            reqs.push(TransportRequest::StopPreview);
            reqs.push(TransportRequest::SyncBpm);
            reqs.push(TransportRequest::Play);
        },
        TransportPlaybackState::Stopped => {},
    }
    assert(reqs@ =~= pause_requests(*old(transport)));
    reqs
}

/// Stop: the transport stops and rewinds to sample 0.
pub fn press_stop(transport: &mut TransportPosition) -> (reqs: Vec<TransportRequest>)
    ensures
        *final(transport) == (TransportPosition {
            playback_state: TransportPlaybackState::Stopped,
            sample_count: 0,
            ..*old(transport)
        }),
        reqs@ == seq![TransportRequest::Stop],
{
    transport.playback_state = TransportPlaybackState::Stopped;
    transport.sample_count = 0;
    let mut reqs: Vec<TransportRequest> = Vec::new();
    reqs.push(TransportRequest::Stop);
    reqs
}

/// Back to the start: the cursor goes to sample 0.
pub fn press_rewind(transport: &mut TransportPosition) -> (reqs: Vec<TransportRequest>)
    ensures
        *final(transport) == (TransportPosition { sample_count: 0, ..*old(transport) }),
        reqs@ == seq![TransportRequest::Seek(0)],
{
    transport.sample_count = 0;
    let mut reqs: Vec<TransportRequest> = Vec::new();
    reqs.push(TransportRequest::Seek(0));
    reqs
}

/// Choosing a workspace: switching to the other one stops the transport,
/// rewinds it and puts the engine in that mode; choosing the current one
/// does nothing.
pub fn select_mode(mode: &mut AppMode, transport: &mut TransportPosition, target: AppMode) -> (reqs: Vec<TransportRequest>)
    ensures
        *old(mode) == target ==> *final(mode) == *old(mode) && *final(transport) == *old(transport) && reqs@.len() == 0,
        *old(mode) != target ==> {
            &&& *final(mode) == target
            &&& *final(transport) == (TransportPosition {
                playback_state: TransportPlaybackState::Stopped,
                sample_count: 0,
                ..*old(transport)
            })
            &&& reqs@ == seq![TransportRequest::Stop, TransportRequest::SetAppMode(target == AppMode::OpenStudio)]
        },
{
    let mut reqs: Vec<TransportRequest> = Vec::new();
    if *mode != target {
        *mode = target;
        transport.playback_state = TransportPlaybackState::Stopped;
        transport.sample_count = 0;
        reqs.push(TransportRequest::Stop);
        reqs.push(TransportRequest::SetAppMode(target == AppMode::OpenStudio));
    }
    reqs
}

/// Pause pressed twice returns the transport to where it was: playing
/// resumes, paused pauses again, at the same position.
pub proof fn lemma_pause_twice_is_identity(t: TransportPosition)
    ensures
        after_pause(after_pause(t)) == t,
        t.playback_state == TransportPlaybackState::Playing ==>
            pause_requests(after_pause(t)).last() == TransportRequest::Play,
{
}

} // verus!
