//! The engine's clip voices: where each clip sounds on the transport
//! (OpenStudio) or on the engine's linear clock (OpenLive), pad and scene
//! launching, and the per-block clock advance. The sample data itself is
//! carried as an opaque payload; the mixing of sample values happens
//! outside.
use vstd::prelude::*;
use crate::clip::VoiceState;
use crate::transport::{TransportPosition, TransportPlaybackState, wrap_into};

verus! {

#[derive(Debug, Clone, Copy, PartialEq, Eq, Structural)]
pub enum EngineMode {
    OpenLive,
    OpenStudio,
}

/// Crossfade length, in frames, at the wrap of a clip loop.
pub const LOOP_XFADE_FRAMES: u32 = 32;

/// A clip loaded into the engine. `samples` is the interleaved audio
/// (opaque here) and `sample_len` the number of values it holds.
pub struct AudioClipInstance<S> {
    pub id: usize,
    pub track_index: usize,
    pub scene_index: usize,
    pub samples: S,
    pub sample_len: usize,
    /// Transport position at which the clip starts (OpenStudio), or at
    /// which it was launched (OpenLive).
    pub start_frame: u64,
    /// Launch time on the engine's linear clock (never wrapped). An
    /// OpenLive voice lives on this clock alone: the time selection moves
    /// the cursor but never extends or restarts a voice.
    pub start_absolute: u64,
    pub duration_frames: u64,
    /// Offset of the first read sample, in interleaved samples.
    pub sample_offset: usize,
    pub channels: usize,
    pub is_playing: bool,
    /// The clip's own loop, in frames, independent of the global loop.
    pub clip_loop_enabled: bool,
    pub clip_loop_start: u64,
    pub clip_loop_end: u64,
    /// Loaded from the session matrix: kept when the playlist resyncs.
    pub is_matrix_clip: bool,
    /// Frame read last (to detect a loop wrap); `usize::MAX` when none.
    pub prev_frame: usize,
    /// Remaining crossfade frames (0 = none active).
    pub xfade_remaining: u32,
    /// Configured crossfade length.
    pub xfade_len: u32,
}

/// What an OpenLive voice does at one frame of the linear clock.
#[derive(Debug, Clone, Copy, PartialEq, Eq, Structural)]
pub enum LiveFrame {
    /// The voice has run out: it stops for good.
    Finished,
    /// Nothing to read at this frame.
    Silent,
    /// Read the frame whose left sample is at `index`.
    Plain { index: usize },
    /// Crossfade at a loop wrap: mix the frame at `index` (gain
    /// `fade_pos / fade_len`) with the previous frame at `prev_index`
    /// (the rest; silence when `None`).
    Crossfade { index: usize, prev_index: Option<usize>, fade_pos: u32, fade_len: u32 },
}

impl<S> AudioClipInstance<S> {
    pub open spec fn ch(self) -> int {
        if self.channels == 0 { 1 } else { self.channels as int }
    }

    /// Real length of the audio in frames.
    pub open spec fn spec_natural(self) -> u64 {
        (self.sample_len as int / self.ch()) as u64
    }

    /// The clip loop is enabled, non-empty and starts inside the audio.
    pub open spec fn spec_valid_loop(self) -> bool {
        self.clip_loop_enabled && self.clip_loop_end > self.clip_loop_start
            && self.clip_loop_start < self.spec_natural()
    }

    /// End of the clip loop clamped to the audio.
    pub open spec fn loop_end_clamped(self) -> u64 {
        if self.clip_loop_end < self.spec_natural() { self.clip_loop_end } else { self.spec_natural() }
    }

    pub open spec fn spec_playback_length(self) -> u64 {
        if self.spec_valid_loop() {
            (self.loop_end_clamped() - self.clip_loop_start) as u64
        } else {
            self.spec_natural()
        }
    }

    /// Valid emission window: the shorter of timeline duration and audio.
    pub open spec fn spec_emission(self) -> u64 {
        if self.duration_frames > 0 && self.duration_frames < self.spec_natural() {
            self.duration_frames
        } else {
            self.spec_natural()
        }
    }

    /// Frame inside the clip loop after `d` frames past its start.
    pub open spec fn loop_phase(self, d: u64) -> u64 {
        (self.clip_loop_start + d % ((self.loop_end_clamped() - self.clip_loop_start) as u64)) as u64
    }

    /// The source frame read at a (wrapped) transport position, or `None`
    /// for silence. With a clip loop: straight through the first pass,
    /// then wrapping inside the loop, anchored at the global loop start
    /// when the transport has a valid loop. Without: the emission window
    /// once.
    pub open spec fn spec_voice_frame(self, global_pos: u64, transport: TransportPosition) -> Option<u64> {
        if global_pos < self.start_frame || self.spec_natural() == 0 {
            None
        } else {
            let elapsed = (global_pos - self.start_frame) as u64;
            if self.spec_valid_loop() {
                if elapsed < self.loop_end_clamped() {
                    Some(elapsed)
                } else if transport.valid_loop() {
                    let since = if global_pos >= transport.loop_start_samples {
                        (global_pos - transport.loop_start_samples) as u64
                    } else {
                        0u64
                    };
                    Some(self.loop_phase(since))
                } else {
                    Some(self.loop_phase((elapsed - self.clip_loop_start) as u64))
                }
            } else if elapsed >= self.spec_emission() {
                None
            } else {
                Some(elapsed)
            }
        }
    }

    /// The OpenLive phase on the engine's linear clock: the clip loop is the
    /// only thing that wraps; the global loop has no say.
    pub open spec fn spec_voice_frame_linear(self, abs_pos: u64) -> Option<u64> {
        if abs_pos < self.start_absolute || self.spec_natural() == 0 {
            None
        } else {
            let elapsed = (abs_pos - self.start_absolute) as u64;
            if self.spec_valid_loop() {
                if elapsed < self.loop_end_clamped() {
                    Some(elapsed)
                } else {
                    Some(self.loop_phase((elapsed - self.clip_loop_start) as u64))
                }
            } else if elapsed >= self.spec_emission() {
                None
            } else {
                Some(elapsed)
            }
        }
    }

    pub open spec fn state_of(frame: Option<u64>) -> VoiceState {
        if frame is Some { VoiceState::Active } else { VoiceState::Finished }
    }

    /// Where the left sample of a source frame lies, when it may be read:
    /// past the audio without a clip loop, or outside the buffer, nothing.
    pub open spec fn spec_read_index(self, frame: usize) -> Option<usize> {
        if !self.spec_valid_loop() && frame >= self.spec_natural() {
            None
        } else if frame * self.ch() >= self.sample_len {
            None
        } else {
            Some((frame * self.ch()) as usize)
        }
    }

    /// Where the right sample of a source frame lies: the next sample in a
    /// multi-channel clip, the left one in a mono clip.
    pub open spec fn spec_read_index_r(self, frame: usize) -> Option<usize> {
        if self.ch() > 1 {
            if !self.spec_valid_loop() && frame >= self.spec_natural() {
                None
            } else if frame * self.ch() + 1 >= self.sample_len {
                None
            } else {
                Some((frame * self.ch() + 1) as usize)
            }
        } else {
            self.spec_read_index(frame)
        }
    }

    /// Left sample read in OpenStudio at a wrapped transport frame: inside
    /// `[start_frame, start_frame + duration_frames)`, offset applied, and
    /// only when the whole frame lies in the buffer.
    pub open spec fn spec_studio_index(self, global_frame: u64) -> Option<usize> {
        if global_frame < self.start_frame || global_frame >= crate::playlist::sat_add(self.start_frame, self.duration_frames) {
            None
        } else {
            let idx = (self.sample_offset as int / self.ch() + (global_frame - self.start_frame)) * self.ch();
            if idx + self.ch() <= self.sample_len { Some(idx as usize) } else { None }
        }
    }

    /// Real audio length in frames.
    pub fn natural_frames(&self) -> (n: u64)
        ensures
            n == self.spec_natural(),
            n <= self.sample_len,
    {
        let ch = if self.channels == 0 { 1 } else { self.channels };
        (self.sample_len / ch) as u64
    }

    /// Whether the clip loop is valid (clamped to the audio).
    pub fn has_valid_clip_loop(&self) -> (valid: bool)
        ensures
            valid == self.spec_valid_loop(),
    {
        self.clip_loop_enabled && self.clip_loop_end > self.clip_loop_start
            && self.clip_loop_start < self.natural_frames()
    }

    /// Effective playback length: the clip loop when valid, else the audio.
    pub fn playback_length_frames(&self) -> (len: u64)
        ensures
            len == self.spec_playback_length(),
    {
        if self.has_valid_clip_loop() {
            let n = self.natural_frames();
            let end = if self.clip_loop_end < n { self.clip_loop_end } else { n };
            end.saturating_sub(self.clip_loop_start)
        } else {
            self.natural_frames()
        }
    }

    /// Emission window in frames.
    pub fn emission_len_frames(&self) -> (len: u64)
        ensures
            len == self.spec_emission(),
            len <= self.spec_natural(),
    {
        let natural = self.natural_frames();
        if self.duration_frames > 0 {
            if self.duration_frames < natural { self.duration_frames } else { natural }
        } else {
            natural
        }
    }

    /// The source frame for a (wrapped) transport position; `None` is
    /// silence and the caller must not wrap it around the audio.
    pub fn voice_frame(&self, global_pos: u64, transport: &TransportPosition) -> (frame: Option<usize>)
        ensures
            match frame {
                Some(f) => self.spec_voice_frame(global_pos, *transport) == Some(f as u64),
                None => self.spec_voice_frame(global_pos, *transport) is None,
            },
            frame is Some ==> frame->0 < self.spec_natural(),
    {
        if global_pos < self.start_frame {
            return None;
        }
        let natural = self.natural_frames();
        if natural == 0 {
            return None;
        }
        let elapsed = global_pos - self.start_frame;
        if self.has_valid_clip_loop() {
            let loop_start = if self.clip_loop_start < natural { self.clip_loop_start } else { natural };
            let cap = if natural > 1 { natural } else { 1 };
            let e0 = if self.clip_loop_end < cap { self.clip_loop_end } else { cap };
            let loop_end = if e0 > loop_start + 1 { e0 } else { loop_start + 1 };
            let l0 = loop_end.saturating_sub(loop_start);
            let loop_len = if l0 > 1 { l0 } else { 1 };
            if elapsed < loop_end {
                return Some(elapsed as usize);
            }
            proof {
                let len = loop_len;
                assert forall|x: u64| #![trigger x % len] loop_start + x % len < loop_end by {
                    assert(x % len < len);
                }
            }
            if transport.has_valid_loop() {
                let since_global = global_pos.saturating_sub(transport.loop_start_samples);
                return Some((loop_start + (since_global % loop_len)) as usize);
            }
            return Some((loop_start + ((elapsed - loop_start) % loop_len)) as usize);
        }
        let emission_len = self.emission_len_frames();
        if elapsed >= emission_len {
            return None;
        }
        Some(elapsed as usize)
    }

    /// The OpenLive phase on the linear clock.
    pub fn voice_frame_linear(&self, abs_pos: u64) -> (frame: Option<usize>)
        ensures
            match frame {
                Some(f) => self.spec_voice_frame_linear(abs_pos) == Some(f as u64),
                None => self.spec_voice_frame_linear(abs_pos) is None,
            },
            frame is Some ==> frame->0 < self.spec_natural(),
    {
        if abs_pos < self.start_absolute {
            return None;
        }
        let natural = self.natural_frames();
        if natural == 0 {
            return None;
        }
        let elapsed = abs_pos - self.start_absolute;
        if self.has_valid_clip_loop() {
            let loop_start = if self.clip_loop_start < natural { self.clip_loop_start } else { natural };
            let cap = if natural > 1 { natural } else { 1 };
            let e0 = if self.clip_loop_end < cap { self.clip_loop_end } else { cap };
            let loop_end = if e0 > loop_start + 1 { e0 } else { loop_start + 1 };
            let l0 = loop_end.saturating_sub(loop_start);
            let loop_len = if l0 > 1 { l0 } else { 1 };
            if elapsed < loop_end {
                return Some(elapsed as usize);
            }
            proof {
                let len = loop_len;
                assert forall|x: u64| #![trigger x % len] loop_start + x % len < loop_end by {
                    assert(x % len < len);
                }
            }
            return Some((loop_start + ((elapsed - loop_start) % loop_len)) as usize);
        }
        let emission_len = self.emission_len_frames();
        if elapsed >= emission_len {
            return None;
        }
        Some(elapsed as usize)
    }

    /// OpenLive voice state on the linear clock.
    pub fn voice_state_linear(&self, abs_pos: u64) -> (vs: VoiceState)
        ensures
            vs == Self::state_of(self.spec_voice_frame_linear(abs_pos)),
    {
        match self.voice_frame_linear(abs_pos) {
            Some(_) => VoiceState::Active,
            None => VoiceState::Finished,
        }
    }

    /// Voice state at a transport position.
    pub fn voice_state(&self, global_pos: u64, transport: &TransportPosition) -> (vs: VoiceState)
        ensures
            vs == Self::state_of(self.spec_voice_frame(global_pos, *transport)),
    {
        match self.voice_frame(global_pos, transport) {
            Some(_) => VoiceState::Active,
            None => VoiceState::Finished,
        }
    }
}


impl<S> AudioClipInstance<S> {
    /// Bookkeeping a live voice keeps between frames: index arithmetic on
    /// the buffer cannot overflow, the crossfade counter stays within its
    /// length, the last frame lies inside the audio, and a running
    /// crossfade has a previous frame.
    pub open spec fn live_wf(self) -> bool {
        &&& self.sample_offset + self.sample_len + self.ch() <= usize::MAX
        &&& self.xfade_remaining <= self.xfade_len
        &&& (self.prev_frame == usize::MAX || self.prev_frame < self.spec_natural())
        &&& (self.xfade_remaining > 0 ==> self.prev_frame != usize::MAX)
    }

    /// Index of the left sample of `frame` counted from the clip's offset.
    pub open spec fn offset_index(self, frame: int) -> int {
        (self.sample_offset as int / self.ch() + frame) * self.ch()
    }

    /// The crossfade counters once the frame `rel` has been reached: a
    /// backward jump of more than half the emission window while the clip
    /// loops starts a new crossfade.
    pub open spec fn xfade_armed(self, rel: u64) -> bool {
        &&& self.spec_valid_loop()
        &&& self.prev_frame != usize::MAX
        &&& rel < self.prev_frame
        &&& self.prev_frame - rel > self.spec_emission() / 2
    }

    /// One frame of an OpenLive voice on the linear clock: the step it
    /// takes and the voice afterwards.
    pub open spec fn spec_live_step(self, abs: u64) -> (LiveFrame, AudioClipInstance<S>) {
        if !self.spec_valid_loop() && abs >= self.start_absolute && abs - self.start_absolute > 0
            && abs - self.start_absolute >= self.spec_emission() {
            (LiveFrame::Finished, AudioClipInstance { is_playing: false, ..self })
        } else {
            match self.spec_voice_frame_linear(abs) {
                None => (LiveFrame::Silent, self),
                Some(rel) => {
                    let armed = self.xfade_armed(rel);
                    let rem = if armed { LOOP_XFADE_FRAMES } else { self.xfade_remaining };
                    let len = if armed { LOOP_XFADE_FRAMES } else { self.xfade_len };
                    let idx = self.offset_index(rel as int);
                    let readable = idx + self.ch() <= self.sample_len;
                    if rem > 0 && readable {
                        let pidx = self.offset_index(self.prev_frame as int);
                        (LiveFrame::Crossfade {
                            index: idx as usize,
                            prev_index: if pidx + self.ch() <= self.sample_len { Some(pidx as usize) } else { None },
                            fade_pos: (len - rem) as u32,
                            fade_len: len,
                        }, AudioClipInstance {
                            xfade_remaining: (rem - 1) as u32,
                            xfade_len: len,
                            prev_frame: rel as usize,
                            ..self
                        })
                    } else {
                        (if readable { LiveFrame::Plain { index: idx as usize } } else { LiveFrame::Silent },
                         AudioClipInstance {
                            xfade_remaining: rem,
                            xfade_len: len,
                            prev_frame: rel as usize,
                            ..self
                        })
                    }
                },
            }
        }
    }

    /// Sample index of the left channel of a source frame, where it may be
    /// read.
    pub fn read_index(&self, frame: usize) -> (index: Option<usize>)
        ensures
            index == self.spec_read_index(frame),
    {
        if !self.has_valid_clip_loop() {
            if (frame as u64) >= self.natural_frames() {
                return None;
            }
        }
        let ch = if self.channels == 0 { 1 } else { self.channels };
        match frame.checked_mul(ch) {
            Some(idx) => if idx < self.sample_len { Some(idx) } else { None },
            None => None,
        }
    }

    /// Sample index of the right channel of a source frame (the left one
    /// for mono clips), where it may be read.
    pub fn read_index_r(&self, frame: usize) -> (index: Option<usize>)
        requires
            self.ch() > 1 ==> frame * self.ch() < usize::MAX,
        ensures
            index == self.spec_read_index_r(frame),
    {
        let ch = if self.channels == 0 { 1 } else { self.channels };
        if ch > 1 {
            if !self.has_valid_clip_loop() {
                if (frame as u64) >= self.natural_frames() {
                    return None;
                }
            }
            let idx = frame * ch + 1;
            if idx < self.sample_len { Some(idx) } else { None }
        } else {
            self.read_index(frame)
        }
    }

    /// OpenStudio read position at a wrapped transport frame.
    pub fn studio_index(&self, global_frame: u64) -> (index: Option<usize>)
        requires
            self.start_frame <= global_frame < crate::playlist::sat_add(self.start_frame, self.duration_frames) ==>
                self.offset_index(global_frame - self.start_frame) + self.ch() <= usize::MAX,
        ensures
            index == self.spec_studio_index(global_frame),
    {
        let ch = if self.channels == 0 { 1 } else { self.channels };
        let clip_frame_end = self.start_frame.saturating_add(self.duration_frames);
        if global_frame < self.start_frame || global_frame >= clip_frame_end {
            return None;
        }
        let offset_frames = self.sample_offset / ch;
        proof {
            let r = (global_frame - self.start_frame) as int;
            let c = ch as int;
            assert(offset_frames == self.sample_offset as int / self.ch());
            assert((offset_frames + r) * c + c <= usize::MAX);
            assert(r <= usize::MAX && offset_frames + r <= usize::MAX) by (nonlinear_arith)
                requires (offset_frames + r) * c + c <= usize::MAX, c >= 1, offset_frames >= 0, r >= 0;
        }
        let relative = (global_frame - self.start_frame) as usize;
        let idx = (offset_frames + relative) * ch;
        if idx + ch <= self.sample_len { Some(idx) } else { None }
    }

    /// Advances an OpenLive voice by one frame of the linear clock and says
    /// what to read. Without a clip loop the voice finishes (and stops
    /// playing) once its emission window is used up; with one, a backward jump at the loop
    /// wrap starts a short crossfade from the previous frame.
    pub fn live_frame(&mut self, abs: u64) -> (step: LiveFrame)
        requires
            old(self).live_wf(),
        ensures
            (step, *final(self)) == old(self).spec_live_step(abs),
            final(self).live_wf(),
    {
        let has_loop = self.has_valid_clip_loop();
        let emission = self.emission_len_frames();
        let xfade_frames: u32 = if has_loop { LOOP_XFADE_FRAMES } else { 0 };
        if !has_loop && abs >= self.start_absolute {
            let elapsed = abs - self.start_absolute;
            if elapsed > 0 && elapsed >= emission {
                self.is_playing = false;
                return LiveFrame::Finished;
            }
        }
        let relative_frame = match self.voice_frame_linear(abs) {
            Some(f) => f,
            None => { return LiveFrame::Silent; },
        };
        let ch = if self.channels == 0 { 1 } else { self.channels };
        let offset_frames = self.sample_offset / ch;
        proof {
            let n = self.spec_natural() as int;
            let c = ch as int;
            let o = self.sample_offset as int;
            assert(n * c <= self.sample_len) by (nonlinear_arith)
                requires n == self.sample_len as int / c, c >= 1;
            assert((o / c + relative_frame) * c + c <= o + self.sample_len) by (nonlinear_arith)
                requires relative_frame < n, n * c <= self.sample_len, c >= 1, o >= 0;
            if self.prev_frame != usize::MAX {
                assert((o / c + self.prev_frame) * c + c <= o + self.sample_len) by (nonlinear_arith)
                    requires self.prev_frame < n, n * c <= self.sample_len, c >= 1, o >= 0;
            }
        }
        let idx = (offset_frames + relative_frame) * ch;
        if xfade_frames > 0
            && self.prev_frame != usize::MAX
            && relative_frame < self.prev_frame
            && (self.prev_frame - relative_frame) as u64 > emission / 2
        {
            self.xfade_remaining = xfade_frames;
            self.xfade_len = xfade_frames;
        }
        if self.xfade_remaining > 0 && idx + ch <= self.sample_len {
            let fade_pos = self.xfade_len - self.xfade_remaining;
            let prev_idx = (offset_frames + self.prev_frame) * ch;
            let prev_index = if prev_idx + ch <= self.sample_len { Some(prev_idx) } else { None };
            let fade_len = self.xfade_len;
            self.xfade_remaining = self.xfade_remaining - 1;
            self.prev_frame = relative_frame;
            LiveFrame::Crossfade { index: idx, prev_index, fade_pos, fade_len }
        } else if idx + ch <= self.sample_len {
            self.prev_frame = relative_frame;
            LiveFrame::Plain { index: idx }
        } else {
            self.prev_frame = relative_frame;
            LiveFrame::Silent
        }
    }
}

} // verus!

verus! {

/// Clips are looked up by id in OpenStudio and by pad (track, scene) in
/// OpenLive.
pub open spec fn key_matches<S>(c: AudioClipInstance<S>, studio: bool, id: usize, track: usize, scene: usize) -> bool {
    if studio { c.id == id } else { c.track_index == track && c.scene_index == scene }
}

/// Index of the first clip matching a key.
pub open spec fn first_index<S>(clips: Seq<AudioClipInstance<S>>, studio: bool, id: usize, track: usize, scene: usize) -> Option<int>
    decreases clips.len(),
{
    if clips.len() == 0 {
        None
    } else {
        match first_index(clips.drop_last(), studio, id, track, scene) {
            Some(i) => Some(i),
            None => if key_matches(clips.last(), studio, id, track, scene) {
                Some(clips.len() - 1)
            } else {
                None
            },
        }
    }
}

/// `first_index` finds the first clip matching the key, or says that none
/// does.
pub proof fn lemma_first_index<S>(clips: Seq<AudioClipInstance<S>>, studio: bool, id: usize, track: usize, scene: usize)
    ensures
        match first_index(clips, studio, id, track, scene) {
            Some(i) => 0 <= i < clips.len() && key_matches(clips[i], studio, id, track, scene)
                && forall|j: int| 0 <= j < i ==> !key_matches(#[trigger] clips[j], studio, id, track, scene),
            None => forall|j: int| 0 <= j < clips.len() ==> !key_matches(#[trigger] clips[j], studio, id, track, scene),
        },
    decreases clips.len(),
{
    if clips.len() > 0 {
        lemma_first_index(clips.drop_last(), studio, id, track, scene);
        match first_index(clips.drop_last(), studio, id, track, scene) {
            Some(i) => {
                assert forall|j: int| 0 <= j < i implies !key_matches(#[trigger] clips[j], studio, id, track, scene) by {
                    assert(clips[j] == clips.drop_last()[j]);
                }
                assert(clips[i] == clips.drop_last()[i]);
            },
            None => {
                assert forall|j: int| 0 <= j < clips.len() - 1 implies !key_matches(#[trigger] clips[j], studio, id, track, scene) by {
                    assert(clips[j] == clips.drop_last()[j]);
                }
            },
        }
    }
}

/// The first match is determined by the keys alone: it is the same in any
/// sequence whose clips carry the same keys.
pub proof fn lemma_first_index_same_keys<S>(a: Seq<AudioClipInstance<S>>, b: Seq<AudioClipInstance<S>>, studio: bool, id: usize, track: usize, scene: usize)
    requires
        a.len() == b.len(),
        forall|j: int| 0 <= j < a.len() ==> (#[trigger] a[j]).id == b[j].id && a[j].track_index == b[j].track_index
            && a[j].scene_index == b[j].scene_index,
    ensures
        first_index(a, studio, id, track, scene) == first_index(b, studio, id, track, scene),
    decreases a.len(),
{
    if a.len() > 0 {
        assert forall|j: int| 0 <= j < a.len() - 1 implies (#[trigger] a.drop_last()[j]).id == b.drop_last()[j].id
            && a.drop_last()[j].track_index == b.drop_last()[j].track_index
            && a.drop_last()[j].scene_index == b.drop_last()[j].scene_index by {
            assert(a.drop_last()[j] == a[j]);
            assert(b.drop_last()[j] == b[j]);
        }
        lemma_first_index_same_keys(a.drop_last(), b.drop_last(), studio, id, track, scene);
    }
}

/// The clip after a pad press on (`track`, `scene`): on that track the
/// pressed clip toggles (restarting its phase when it starts) and every
/// other clip stops; other tracks are untouched.
pub open spec fn pad_pressed<S>(c: AudioClipInstance<S>, track: usize, scene: usize, target_was_playing: bool, now: u64, now_abs: u64) -> AudioClipInstance<S> {
    if c.track_index != track {
        c
    } else if c.scene_index == scene {
        if target_was_playing {
            AudioClipInstance { is_playing: false, ..c }
        } else {
            AudioClipInstance { is_playing: true, start_frame: now, start_absolute: now_abs, ..c }
        }
    } else {
        AudioClipInstance { is_playing: false, ..c }
    }
}

/// Some clip of `track` sits in `scene`.
pub open spec fn track_has_clip_in<S>(clips: Seq<AudioClipInstance<S>>, track: usize, scene: usize) -> bool {
    exists|k: int| 0 <= k < clips.len() && (#[trigger] clips[k]).scene_index == scene && clips[k].track_index == track
}

/// The clip after its scene was launched: clips of the scene start (unless
/// already started at this very instant of the linear clock); the other
/// clips of the tracks that take part stop.
pub open spec fn scene_launched<S>(c: AudioClipInstance<S>, scene_has_track: bool, scene: usize, now: u64, now_abs: u64) -> AudioClipInstance<S> {
    if c.scene_index == scene {
        if c.is_playing && c.start_absolute == now_abs {
            c
        } else {
            AudioClipInstance { is_playing: true, start_frame: now, start_absolute: now_abs, ..c }
        }
    } else if scene_has_track {
        AudioClipInstance { is_playing: false, ..c }
    } else {
        c
    }
}

/// Whether the pad's clip was playing before a press.
pub open spec fn pad_was_playing<S>(clips: Seq<AudioClipInstance<S>>, track: usize, scene: usize) -> bool {
    match first_index(clips, false, 0, track, scene) {
        Some(i) => clips[i].is_playing,
        None => false,
    }
}

/// All clips after a press on the pad (`track`, `scene`).
pub open spec fn clips_after_pad<S>(clips: Seq<AudioClipInstance<S>>, track: usize, scene: usize, now: u64, now_abs: u64) -> Seq<AudioClipInstance<S>> {
    Seq::new(clips.len(), |j: int| pad_pressed(clips[j], track, scene, pad_was_playing(clips, track, scene), now, now_abs))
}

/// All clips after launching a scene.
pub open spec fn clips_after_scene<S>(clips: Seq<AudioClipInstance<S>>, scene: usize, now: u64, now_abs: u64) -> Seq<AudioClipInstance<S>> {
    Seq::new(clips.len(), |j: int| scene_launched(clips[j], track_has_clip_in(clips, clips[j].track_index, scene), scene, now, now_abs))
}

/// Whether a clip is kept when removing by key.
pub open spec fn kept_on_remove<S>(c: AudioClipInstance<S>, studio: bool, id: usize, track: usize, scene: usize) -> bool {
    !key_matches(c, studio, id, track, scene)
}

/// The engine's voice state: transport, mode, loaded clips and the linear
/// clock. `absolute_frame` only advances while playing and never wraps.
pub struct VoiceEngine<S> {
    pub transport: TransportPosition,
    pub mode: EngineMode,
    pub clips: Vec<AudioClipInstance<S>>,
    pub absolute_frame: u64,
}

impl<S> VoiceEngine<S> {
    pub open spec fn studio(self) -> bool {
        self.mode == EngineMode::OpenStudio
    }

    /// The pad's clip (first clip on `track`/`scene`).
    pub open spec fn pad(self, track: usize, scene: usize) -> Option<int> {
        first_index(self.clips@, false, 0, track, scene)
    }

    /// The pad's voice is playing and still sounding on the linear clock.
    pub open spec fn spec_voice_active(self, track: usize, scene: usize) -> bool {
        match self.pad(track, scene) {
            None => false,
            Some(i) => self.clips@[i].is_playing
                && self.clips@[i].spec_voice_frame_linear(self.absolute_frame) is Some,
        }
    }

    /// An idle engine: stopped transport at 0, OpenStudio, no clips.
    pub fn new() -> (e: VoiceEngine<S>)
        ensures
            e.transport == TransportPosition::new_spec(),
            e.mode == EngineMode::OpenStudio,
            e.clips@.len() == 0,
            e.absolute_frame == 0,
    {
        VoiceEngine {
            transport: TransportPosition::new(),
            mode: EngineMode::OpenStudio,
            clips: Vec::new(),
            absolute_frame: 0,
        }
    }

    pub fn set_mode(&mut self, mode: EngineMode)
        ensures
            final(self).mode == mode,
            final(self).transport == old(self).transport,
            final(self).clips@ == old(self).clips@,
            final(self).absolute_frame == old(self).absolute_frame,
    {
        self.mode = mode;
    }

    /// Starts the transport.
    pub fn play(&mut self)
        ensures
            final(self).transport == (TransportPosition { playback_state: TransportPlaybackState::Playing, ..old(self).transport }),
            final(self).mode == old(self).mode,
            final(self).clips@ == old(self).clips@,
            final(self).absolute_frame == old(self).absolute_frame,
    {
        self.transport.playback_state = TransportPlaybackState::Playing;
    }

    pub fn pause(&mut self)
        ensures
            final(self).transport == (TransportPosition { playback_state: TransportPlaybackState::Paused, ..old(self).transport }),
            final(self).mode == old(self).mode,
            final(self).clips@ == old(self).clips@,
            final(self).absolute_frame == old(self).absolute_frame,
    {
        self.transport.playback_state = TransportPlaybackState::Paused;
    }

    /// Stops the transport and rewinds the cursor to 0.
    pub fn stop(&mut self)
        ensures
            final(self).transport == (TransportPosition {
                playback_state: TransportPlaybackState::Stopped,
                sample_count: 0,
                ..old(self).transport
            }),
            final(self).mode == old(self).mode,
            final(self).clips@ == old(self).clips@,
            final(self).absolute_frame == old(self).absolute_frame,
    {
        self.transport.playback_state = TransportPlaybackState::Stopped;
        self.transport.sample_count = 0;
    }

    /// Sets the global loop (in samples); the engine alone wraps the cursor.
    pub fn set_global_loop(&mut self, start_samples: u64, end_samples: u64, enabled: bool)
        ensures
            final(self).transport == (TransportPosition {
                loop_start_samples: start_samples,
                loop_end_samples: end_samples,
                loop_enabled: enabled,
                ..old(self).transport
            }),
            final(self).mode == old(self).mode,
            final(self).clips@ == old(self).clips@,
            final(self).absolute_frame == old(self).absolute_frame,
    {
        self.transport.set_loop_region_samples(start_samples, end_samples);
        self.transport.set_loop_enabled(enabled);
    }

    /// Moves the cursor to a sample position.
    pub fn seek_samples(&mut self, position: u64)
        ensures
            final(self).transport == (TransportPosition { sample_count: position, ..old(self).transport }),
            final(self).mode == old(self).mode,
            final(self).clips@ == old(self).clips@,
            final(self).absolute_frame == old(self).absolute_frame,
    {
        self.transport.sample_count = position;
    }

    /// Index of the first clip matching a key.
    pub fn find_clip(&self, studio: bool, id: usize, track: usize, scene: usize) -> (i: Option<usize>)
        ensures
            match i {
                Some(k) => first_index(self.clips@, studio, id, track, scene) == Some(k as int),
                None => first_index(self.clips@, studio, id, track, scene) is None,
            },
            i is Some ==> i->0 < self.clips@.len(),
    {
        proof { lemma_first_index(self.clips@, studio, id, track, scene); }
        let mut k: usize = 0;
        while k < self.clips.len()
            invariant
                k <= self.clips@.len(),
                first_index(self.clips@.take(k as int), studio, id, track, scene) is None,
            decreases self.clips@.len() - k,
        {
            assert(self.clips@.take(k + 1).drop_last() =~= self.clips@.take(k as int));
            let c = &self.clips[k];
            let hit = if studio { c.id == id } else { c.track_index == track && c.scene_index == scene };
            if hit {
                proof {
                    lemma_first_index_prefix(self.clips@, (k + 1) as int, studio, id, track, scene);
                }
                return Some(k);
            }
            k += 1;
        }
        assert(self.clips@.take(self.clips@.len() as int) =~= self.clips@);
        None
    }
}

impl<S> VoiceEngine<S> {
    /// Toggles a pad: if its clip was playing it stops; otherwise it starts
    /// alone on its track, its phase restarting at the current transport
    /// position and linear clock, so a re-trigger restarts the sample.
    pub fn trigger_clip(&mut self, track_index: usize, scene_index: usize)
        ensures
            final(self).transport == old(self).transport,
            final(self).mode == old(self).mode,
            final(self).absolute_frame == old(self).absolute_frame,
            final(self).clips@ == clips_after_pad(old(self).clips@, track_index, scene_index,
                old(self).transport.sample_count, old(self).absolute_frame),
    {
        let now = self.transport.sample_count;
        let now_abs = self.absolute_frame;
        let target_was_playing = match self.find_clip(false, 0, track_index, scene_index) {
            Some(i) => self.clips[i].is_playing,
            None => false,
        };
        let ghost old_clips = self.clips@;
        let mut k: usize = 0;
        while k < self.clips.len()
            invariant
                k <= self.clips@.len(),
                self.clips@.len() == old_clips.len(),
                self.transport == old(self).transport,
                self.mode == old(self).mode,
                self.absolute_frame == old(self).absolute_frame,
                forall|j: int| 0 <= j < self.clips@.len() ==> #[trigger] self.clips@[j] == if j < k {
                    pad_pressed(old_clips[j], track_index, scene_index, target_was_playing, now, now_abs)
                } else {
                    old_clips[j]
                },
            decreases self.clips@.len() - k,
        {
            if self.clips[k].track_index == track_index {
                if self.clips[k].scene_index == scene_index {
                    let playing = !target_was_playing;
                    self.clips[k].is_playing = playing;
                    if playing {
                        self.clips[k].start_frame = now;
                        self.clips[k].start_absolute = now_abs;
                    }
                } else {
                    self.clips[k].is_playing = false;
                }
            }
            k += 1;
        }
    }

    /// Launches a scene: on every track with a clip in the scene that clip
    /// starts (phase at the current position) and the track's other clips
    /// stop. A clip already started at this very instant of the linear
    /// clock is left alone, so a duplicated launch does not restart it.
    pub fn trigger_scene(&mut self, scene_index: usize)
        ensures
            final(self).transport == old(self).transport,
            final(self).mode == old(self).mode,
            final(self).absolute_frame == old(self).absolute_frame,
            final(self).clips@ == clips_after_scene(old(self).clips@, scene_index,
                old(self).transport.sample_count, old(self).absolute_frame),
    {
        let now = self.transport.sample_count;
        let now_abs = self.absolute_frame;
        let ghost old_clips = self.clips@;
        let mut takes_part: Vec<bool> = Vec::new();
        let mut j: usize = 0;
        while j < self.clips.len()
            invariant
                j <= self.clips@.len(),
                self.clips@ == old_clips,
                self.transport == old(self).transport,
                self.mode == old(self).mode,
                self.absolute_frame == old(self).absolute_frame,
                takes_part@.len() == j,
                forall|i: int| 0 <= i < j ==> #[trigger] takes_part@[i]
                    == track_has_clip_in(old_clips, old_clips[i].track_index, scene_index),
            decreases self.clips@.len() - j,
        {
            let t = self.clips[j].track_index;
            let mut found = false;
            let mut k: usize = 0;
            while k < self.clips.len()
                invariant
                    k <= self.clips@.len(),
                    j < self.clips@.len(),
                    self.clips@ == old_clips,
                    t == old_clips[j as int].track_index,
                    found == exists|m: int| 0 <= m < k && (#[trigger] old_clips[m]).scene_index == scene_index
                        && old_clips[m].track_index == t,
                decreases self.clips@.len() - k,
            {
                if self.clips[k].scene_index == scene_index && self.clips[k].track_index == t {
                    found = true;
                }
                k += 1;
            }
            takes_part.push(found);
            j += 1;
        }
        let mut k: usize = 0;
        while k < self.clips.len()
            invariant
                k <= self.clips@.len(),
                self.clips@.len() == old_clips.len(),
                self.transport == old(self).transport,
                self.mode == old(self).mode,
                self.absolute_frame == old(self).absolute_frame,
                takes_part@.len() == old_clips.len(),
                forall|i: int| 0 <= i < old_clips.len() ==> #[trigger] takes_part@[i]
                    == track_has_clip_in(old_clips, old_clips[i].track_index, scene_index),
                forall|i: int| 0 <= i < self.clips@.len() ==> #[trigger] self.clips@[i] == if i < k {
                    scene_launched(old_clips[i], takes_part@[i], scene_index, now, now_abs)
                } else {
                    old_clips[i]
                },
            decreases self.clips@.len() - k,
        {
            if self.clips[k].scene_index == scene_index {
                if !(self.clips[k].is_playing && self.clips[k].start_absolute == now_abs) {
                    self.clips[k].is_playing = true;
                    self.clips[k].start_frame = now;
                    self.clips[k].start_absolute = now_abs;
                }
            } else if takes_part[k] {
                self.clips[k].is_playing = false;
            }
            k += 1;
        }
    }

    /// Whether the pad's OpenLive voice still sounds, judged on the linear
    /// clock (not the wrapped cursor).
    pub fn voice_active(&self, track_index: usize, scene_index: usize) -> (active: bool)
        ensures
            active == self.spec_voice_active(track_index, scene_index),
    {
        match self.find_clip(false, 0, track_index, scene_index) {
            None => false,
            Some(i) => {
                if !self.clips[i].is_playing {
                    return false;
                }
                self.clips[i].voice_state_linear(self.absolute_frame) == VoiceState::Active
            },
        }
    }

    /// Linear frames elapsed since the pad's voice was launched, while it
    /// sounds; `None` otherwise (the caller falls back to the cursor).
    pub fn voice_elapsed_frames(&self, track_index: usize, scene_index: usize) -> (elapsed: Option<u64>)
        ensures
            match elapsed {
                None => !self.spec_voice_active(track_index, scene_index),
                Some(e) => self.spec_voice_active(track_index, scene_index)
                    && e == crate::transport::sat_sub(self.absolute_frame,
                        self.clips@[self.pad(track_index, scene_index)->0].start_absolute),
            },
    {
        let i = match self.find_clip(false, 0, track_index, scene_index) {
            None => { return None; },
            Some(i) => i,
        };
        if !self.clips[i].is_playing {
            return None;
        }
        if self.clips[i].voice_state_linear(self.absolute_frame) != VoiceState::Active {
            return None;
        }
        Some(self.absolute_frame.saturating_sub(self.clips[i].start_absolute))
    }

    /// Stops every clip of a track.
    pub fn stop_track(&mut self, track_index: usize)
        ensures
            final(self).transport == old(self).transport,
            final(self).mode == old(self).mode,
            final(self).absolute_frame == old(self).absolute_frame,
            final(self).clips@.len() == old(self).clips@.len(),
            forall|j: int| 0 <= j < old(self).clips@.len() ==> #[trigger] final(self).clips@[j] == if old(self).clips@[j].track_index == track_index {
                AudioClipInstance { is_playing: false, ..old(self).clips@[j] }
            } else {
                old(self).clips@[j]
            },
    {
        let ghost old_clips = self.clips@;
        let mut k: usize = 0;
        while k < self.clips.len()
            invariant
                k <= self.clips@.len(),
                self.clips@.len() == old_clips.len(),
                self.transport == old(self).transport,
                self.mode == old(self).mode,
                self.absolute_frame == old(self).absolute_frame,
                forall|j: int| 0 <= j < self.clips@.len() ==> #[trigger] self.clips@[j] == if j < k && old_clips[j].track_index == track_index {
                    AudioClipInstance { is_playing: false, ..old_clips[j] }
                } else {
                    old_clips[j]
                },
            decreases self.clips@.len() - k,
        {
            if self.clips[k].track_index == track_index {
                self.clips[k].is_playing = false;
            }
            k += 1;
        }
    }
}

/// A freshly loaded clip: stopped, no clip loop, no previous frame.
pub open spec fn loaded_clip<S>(id: usize, track_index: usize, scene_index: usize, samples: S, sample_len: usize,
    start_frame: u64, duration_frames: Option<u64>, offset_frames: usize, channels: usize, is_matrix_clip: bool) -> AudioClipInstance<S> {
    let ch = if channels == 0 { 1usize } else { channels };
    AudioClipInstance {
        id,
        track_index,
        scene_index,
        samples,
        sample_len,
        start_frame,
        start_absolute: 0,
        duration_frames: match duration_frames {
            Some(d) => d,
            None => (sample_len / ch) as u64,
        },
        sample_offset: (offset_frames * ch) as usize,
        channels: ch,
        is_playing: false,
        clip_loop_enabled: false,
        clip_loop_start: 0,
        clip_loop_end: 0,
        is_matrix_clip,
        prev_frame: usize::MAX,
        xfade_remaining: 0,
        xfade_len: 0,
    }
}

/// A clip whose clip loop was set to `[start, end)` (frames): the end is
/// clamped to the audio; an invalid request clears the loop.
pub open spec fn with_clip_loop<S>(c: AudioClipInstance<S>, start: u64, end: u64, enabled: bool) -> AudioClipInstance<S> {
    let natural = c.spec_natural();
    let e = if natural > 0 && end > natural { natural } else { end };
    if enabled && e > start && start < natural {
        AudioClipInstance { clip_loop_enabled: true, clip_loop_start: start, clip_loop_end: e, ..c }
    } else {
        AudioClipInstance { clip_loop_enabled: false, clip_loop_start: 0, clip_loop_end: 0, ..c }
    }
}

impl<S> VoiceEngine<S> {
    /// Loads a clip (frames already converted from seconds): replaces the
    /// clip with the same key (id in OpenStudio, pad in OpenLive) or
    /// appends it. A missing duration means the real audio length. Voices
    /// always load stopped.
    pub fn add_clip(&mut self, id: usize, track_index: usize, scene_index: usize, samples: S, sample_len: usize,
        start_frame: u64, duration_frames: Option<u64>, offset_frames: usize, channels: usize, is_matrix_clip: bool)
        requires
            offset_frames * (if channels == 0 { 1usize } else { channels }) <= usize::MAX,
        ensures
            final(self).transport == old(self).transport,
            final(self).mode == old(self).mode,
            final(self).absolute_frame == old(self).absolute_frame,
            final(self).clips@ == ({
                let inst = loaded_clip(id, track_index, scene_index, samples, sample_len, start_frame,
                    duration_frames, offset_frames, channels, is_matrix_clip);
                match first_index(old(self).clips@, old(self).studio(), id, track_index, scene_index) {
                    Some(i) => old(self).clips@.update(i, inst),
                    None => old(self).clips@.push(inst),
                }
            }),
    {
        let ch = if channels == 0 { 1 } else { channels };
        let natural_frames = (sample_len / ch) as u64;
        let duration = match duration_frames {
            Some(d) => d,
            None => natural_frames,
        };
        let instance = AudioClipInstance {
            id,
            track_index,
            scene_index,
            samples,
            sample_len,
            start_frame,
            start_absolute: 0,
            duration_frames: duration,
            sample_offset: offset_frames * ch,
            channels: ch,
            is_playing: false,
            clip_loop_enabled: false,
            clip_loop_start: 0,
            clip_loop_end: 0,
            is_matrix_clip,
            prev_frame: usize::MAX,
            xfade_remaining: 0,
            xfade_len: 0,
        };
        let studio = self.mode == EngineMode::OpenStudio;
        match self.find_clip(studio, id, track_index, scene_index) {
            Some(i) => {
                self.clips.set(i, instance);
            },
            None => {
                self.clips.push(instance);
            },
        }
    }

    /// Updates a clip's placement (frames already converted): start,
    /// duration (missing means the audio length) and read offset.
    pub fn update_clip_bounds(&mut self, clip_id: usize, track_index: usize, scene_index: usize,
        start_frame: u64, duration_frames: Option<u64>, offset_frames: usize)
        requires
            match first_index(old(self).clips@, old(self).studio(), clip_id, track_index, scene_index) {
                Some(i) => offset_frames * old(self).clips@[i].channels <= usize::MAX,
                None => true,
            },
        ensures
            final(self).transport == old(self).transport,
            final(self).mode == old(self).mode,
            final(self).absolute_frame == old(self).absolute_frame,
            final(self).clips@ == match first_index(old(self).clips@, old(self).studio(), clip_id, track_index, scene_index) {
                Some(i) => old(self).clips@.update(i, AudioClipInstance {
                    start_frame,
                    duration_frames: match duration_frames {
                        Some(d) => d,
                        None => old(self).clips@[i].spec_natural(),
                    },
                    sample_offset: (offset_frames * old(self).clips@[i].channels) as usize,
                    ..old(self).clips@[i]
                }),
                None => old(self).clips@,
            },
    {
        let studio = self.mode == EngineMode::OpenStudio;
        if let Some(i) = self.find_clip(studio, clip_id, track_index, scene_index) {
            let natural = self.clips[i].natural_frames();
            let ch = self.clips[i].channels;
            self.clips[i].start_frame = start_frame;
            self.clips[i].duration_frames = match duration_frames {
                Some(d) => d,
                None => natural,
            };
            self.clips[i].sample_offset = offset_frames * ch;
        }
    }

    /// Sets the pad clip's own loop (frames already converted), clamped to
    /// the audio; disabled or invalid requests clear it.
    pub fn set_clip_loop(&mut self, track_index: usize, scene_index: usize, start: u64, end: u64, enabled: bool)
        ensures
            final(self).transport == old(self).transport,
            final(self).mode == old(self).mode,
            final(self).absolute_frame == old(self).absolute_frame,
            final(self).clips@ == match old(self).pad(track_index, scene_index) {
                Some(i) => old(self).clips@.update(i, with_clip_loop(old(self).clips@[i], start, end, enabled)),
                None => old(self).clips@,
            },
    {
        if let Some(i) = self.find_clip(false, 0, track_index, scene_index) {
            let natural = self.clips[i].natural_frames();
            let mut e = end;
            if natural > 0 && e > natural {
                e = natural;
            }
            if enabled && e > start && start < natural {
                self.clips[i].clip_loop_enabled = true;
                self.clips[i].clip_loop_start = start;
                self.clips[i].clip_loop_end = e;
            } else {
                self.clips[i].clip_loop_enabled = false;
                self.clips[i].clip_loop_start = 0;
                self.clips[i].clip_loop_end = 0;
            }
        }
    }

    /// Removes the clips with a key (id in OpenStudio, pad in OpenLive),
    /// keeping the order of the rest.
    pub fn remove_clip(&mut self, clip_id: usize, track_index: usize, scene_index: usize)
        ensures
            final(self).transport == old(self).transport,
            final(self).mode == old(self).mode,
            final(self).absolute_frame == old(self).absolute_frame,
            final(self).clips@ == old(self).clips@.filter(
                |c: AudioClipInstance<S>| kept_on_remove(c, old(self).studio(), clip_id, track_index, scene_index)),
    {
        let studio = self.mode == EngineMode::OpenStudio;
        let ghost old_clips = self.clips@;
        let ghost pred = |c: AudioClipInstance<S>| kept_on_remove(c, studio, clip_id, track_index, scene_index);
        let ghost mut k: int = 0;
        let mut i: usize = 0;
        assert(old_clips.take(0).filter(pred) =~= Seq::<AudioClipInstance<S>>::empty()) by {
            reveal(Seq::filter);
        }
        while i < self.clips.len()
            invariant
                0 <= k <= old_clips.len(),
                i <= self.clips@.len(),
                self.transport == old(self).transport,
                self.mode == old(self).mode,
                self.absolute_frame == old(self).absolute_frame,
                studio == old(self).studio(),
                pred == (|c: AudioClipInstance<S>| kept_on_remove(c, studio, clip_id, track_index, scene_index)),
                old_clips.take(k).filter(pred).len() == i,
                self.clips@ == old_clips.take(k).filter(pred) + old_clips.skip(k),
            decreases self.clips@.len() - i,
        {
            proof {
                assert(old_clips.take(k + 1) =~= old_clips.take(k).push(old_clips[k]));
                old_clips.take(k).lemma_filter_push(old_clips[k], pred);
                assert(self.clips@[i as int] == old_clips[k]);
            }
            let c = &self.clips[i];
            let hit = if studio { c.id == clip_id } else { c.track_index == track_index && c.scene_index == scene_index };
            if hit {
                let _ = self.clips.remove(i);
                assert(self.clips@ =~= old_clips.take(k + 1).filter(pred) + old_clips.skip(k + 1));
            } else {
                i += 1;
                assert(self.clips@ =~= old_clips.take(k + 1).filter(pred) + old_clips.skip(k + 1));
            }
            proof { k = k + 1; }
        }
        assert(k == old_clips.len()) by {
            assert(self.clips@.len() == i);
            assert(old_clips.skip(k).len() == 0);
        }
        assert(old_clips.take(k) =~= old_clips);
        assert(self.clips@ =~= old_clips.filter(pred));
    }
}

impl<S> VoiceEngine<S> {
    /// Drops every clip that did not come from the session matrix (before a
    /// playlist resync), keeping the order of the rest.
    pub fn retain_matrix_clips(&mut self)
        ensures
            final(self).transport == old(self).transport,
            final(self).mode == old(self).mode,
            final(self).absolute_frame == old(self).absolute_frame,
            final(self).clips@ == old(self).clips@.filter(|c: AudioClipInstance<S>| c.is_matrix_clip),
    {
        let ghost old_clips = self.clips@;
        let ghost pred = |c: AudioClipInstance<S>| c.is_matrix_clip;
        let ghost mut k: int = 0;
        let mut i: usize = 0;
        assert(old_clips.take(0).filter(pred) =~= Seq::<AudioClipInstance<S>>::empty()) by {
            reveal(Seq::filter);
        }
        while i < self.clips.len()
            invariant
                0 <= k <= old_clips.len(),
                i <= self.clips@.len(),
                self.transport == old(self).transport,
                self.mode == old(self).mode,
                self.absolute_frame == old(self).absolute_frame,
                pred == (|c: AudioClipInstance<S>| c.is_matrix_clip),
                old_clips.take(k).filter(pred).len() == i,
                self.clips@ == old_clips.take(k).filter(pred) + old_clips.skip(k),
            decreases self.clips@.len() - i,
        {
            proof {
                assert(old_clips.take(k + 1) =~= old_clips.take(k).push(old_clips[k]));
                old_clips.take(k).lemma_filter_push(old_clips[k], pred);
                assert(self.clips@[i as int] == old_clips[k]);
            }
            if !self.clips[i].is_matrix_clip {
                let _ = self.clips.remove(i);
                assert(self.clips@ =~= old_clips.take(k + 1).filter(pred) + old_clips.skip(k + 1));
            } else {
                i += 1;
                assert(self.clips@ =~= old_clips.take(k + 1).filter(pred) + old_clips.skip(k + 1));
            }
            proof { k = k + 1; }
        }
        assert(k == old_clips.len()) by {
            assert(self.clips@.len() == i);
            assert(old_clips.skip(k).len() == 0);
        }
        assert(old_clips.take(k) =~= old_clips);
        assert(self.clips@ =~= old_clips.filter(pred));
    }

    /// Ends an audio block of `buffer_frames` frames: while playing, the
    /// cursor moves on and wraps into the global loop, and the linear clock
    /// moves on (saturating, never wrapping). An empty block or a halted
    /// transport changes nothing.
    pub fn advance_block(&mut self, buffer_frames: u64)
        requires
            old(self).transport.playback_state == TransportPlaybackState::Playing ==>
                old(self).transport.sample_count + buffer_frames <= u64::MAX,
        ensures
            final(self).mode == old(self).mode,
            final(self).clips@ == old(self).clips@,
            (old(self).transport.playback_state == TransportPlaybackState::Playing && buffer_frames > 0) ==> (
                final(self).transport == (TransportPosition {
                    sample_count: old(self).transport.spec_wrap((old(self).transport.sample_count + buffer_frames) as u64),
                    ..old(self).transport
                })
                && final(self).absolute_frame == crate::playlist::sat_add(old(self).absolute_frame, buffer_frames)),
            !(old(self).transport.playback_state == TransportPlaybackState::Playing && buffer_frames > 0) ==> (
                final(self).transport == old(self).transport
                && final(self).absolute_frame == old(self).absolute_frame),
    {
        if self.transport.playback_state == TransportPlaybackState::Playing && buffer_frames > 0 {
            let frame_end = self.transport.sample_count + buffer_frames;
            self.transport.sample_count = self.transport.wrap_sample_count(frame_end);
            self.absolute_frame = self.absolute_frame.saturating_add(buffer_frames);
        }
    }
}

/// The first match of a prefix that holds it is the first match overall.
pub proof fn lemma_first_index_prefix<S>(clips: Seq<AudioClipInstance<S>>, n: int, studio: bool, id: usize, track: usize, scene: usize)
    requires
        0 <= n <= clips.len(),
        first_index(clips.take(n), studio, id, track, scene) is Some,
    ensures
        first_index(clips, studio, id, track, scene) == first_index(clips.take(n), studio, id, track, scene),
    decreases clips.len() - n,
{
    if n < clips.len() {
        assert(clips.take(n + 1).drop_last() =~= clips.take(n));
        lemma_first_index_prefix(clips, n + 1, studio, id, track, scene);
    } else {
        assert(clips.take(n) =~= clips);
    }
}

} // verus!

verus! {

/// Pressing a pad twice at the same instant gives its clip back the
/// playing state it had (toggle), and the pad still finds the same clip.
pub proof fn lemma_pad_press_toggles<S>(clips: Seq<AudioClipInstance<S>>, track: usize, scene: usize, now: u64, now_abs: u64)
    requires
        first_index(clips, false, 0, track, scene) is Some,
    ensures
        ({
            let i = first_index(clips, false, 0, track, scene)->0;
            let once = clips_after_pad(clips, track, scene, now, now_abs);
            let twice = clips_after_pad(once, track, scene, now, now_abs);
            &&& first_index(once, false, 0, track, scene) == Some(i)
            &&& once[i].is_playing == !clips[i].is_playing
            &&& twice[i].is_playing == clips[i].is_playing
        }),
{
    let i = first_index(clips, false, 0, track, scene)->0;
    lemma_first_index(clips, false, 0, track, scene);
    let once = clips_after_pad(clips, track, scene, now, now_abs);
    lemma_first_index_same_keys(clips, once, false, 0, track, scene);
    let twice = clips_after_pad(once, track, scene, now, now_abs);
    assert(once[i] == pad_pressed(clips[i], track, scene, pad_was_playing(clips, track, scene), now, now_abs));
    assert(twice[i] == pad_pressed(once[i], track, scene, pad_was_playing(once, track, scene), now, now_abs));
}

/// After a pad press the pad's track plays at most its own scene: every
/// other clip of the track is stopped, and clips of other tracks are
/// unchanged.
pub proof fn lemma_pad_press_exclusive<S>(clips: Seq<AudioClipInstance<S>>, track: usize, scene: usize, now: u64, now_abs: u64)
    ensures
        forall|j: int| 0 <= j < clips.len() ==> {
            let c = #[trigger] clips_after_pad(clips, track, scene, now, now_abs)[j];
            &&& (clips[j].track_index == track && clips[j].scene_index != scene ==> !c.is_playing)
            &&& (clips[j].track_index != track ==> c == clips[j])
        },
{
}

/// A started clip restarts its phase at the press: its voice starts at the
/// current cursor and at the current instant of the linear clock.
pub proof fn lemma_pad_press_restarts_phase<S>(clips: Seq<AudioClipInstance<S>>, track: usize, scene: usize, now: u64, now_abs: u64)
    ensures
        forall|j: int| 0 <= j < clips.len() && #[trigger] clips_after_pad(clips, track, scene, now, now_abs)[j].is_playing
            && clips[j].track_index == track ==> {
            let c = clips_after_pad(clips, track, scene, now, now_abs)[j];
            c.start_frame == now && c.start_absolute == now_abs
        },
{
}

/// Launching the same scene twice at the same instant is launching it once.
pub proof fn lemma_scene_launch_idempotent<S>(clips: Seq<AudioClipInstance<S>>, scene: usize, now: u64, now_abs: u64)
    ensures
        clips_after_scene(clips_after_scene(clips, scene, now, now_abs), scene, now, now_abs)
            == clips_after_scene(clips, scene, now, now_abs),
{
    let once = clips_after_scene(clips, scene, now, now_abs);
    let twice = clips_after_scene(once, scene, now, now_abs);
    assert forall|j: int| 0 <= j < clips.len() implies #[trigger] twice[j] == once[j] by {
        let t = clips[j].track_index;
        assert(once[j].track_index == t);
        if track_has_clip_in(clips, t, scene) {
            let k = choose|k: int| 0 <= k < clips.len() && (#[trigger] clips[k]).scene_index == scene && clips[k].track_index == t;
            assert(once[k].scene_index == scene && once[k].track_index == t);
        }
        if track_has_clip_in(once, t, scene) {
            let k = choose|k: int| 0 <= k < once.len() && (#[trigger] once[k]).scene_index == scene && once[k].track_index == t;
            assert(clips[k].scene_index == scene && clips[k].track_index == t);
        }
    }
    assert(twice =~= once);
}

/// After a scene launch every clip of the scene plays, and on each track
/// that takes part the clips of other scenes are stopped.
pub proof fn lemma_scene_launch_plays_row<S>(clips: Seq<AudioClipInstance<S>>, scene: usize, now: u64, now_abs: u64)
    ensures
        forall|j: int| 0 <= j < clips.len() ==> {
            let c = #[trigger] clips_after_scene(clips, scene, now, now_abs)[j];
            &&& (clips[j].scene_index == scene ==> c.is_playing)
            &&& (clips[j].scene_index != scene && track_has_clip_in(clips, clips[j].track_index, scene) ==> !c.is_playing)
        },
{
}

/// Without a clip loop an OpenLive voice never outlives its emission
/// window on the linear clock, whatever the transport's time selection
/// does to the cursor: from `start_absolute + emission` on it is silent.
pub proof fn lemma_live_voice_ends<S>(c: AudioClipInstance<S>, abs: u64)
    requires
        !c.spec_valid_loop(),
        abs >= c.start_absolute + c.spec_emission(),
    ensures
        c.spec_voice_frame_linear(abs) is None,
        abs > c.start_absolute ==> c.spec_live_step(abs).0 == LiveFrame::Finished
            && !c.spec_live_step(abs).1.is_playing,
{
}

/// A live voice only reads whole frames inside its buffer.
pub proof fn lemma_live_step_in_buffer<S>(c: AudioClipInstance<S>, abs: u64)
    requires
        c.live_wf(),
    ensures
        match c.spec_live_step(abs).0 {
            LiveFrame::Plain { index } => index + c.ch() <= c.sample_len,
            LiveFrame::Crossfade { index, prev_index, fade_pos, fade_len } =>
                index + c.ch() <= c.sample_len
                && (prev_index is Some ==> prev_index->0 + c.ch() <= c.sample_len)
                && fade_pos < fade_len,
            _ => true,
        },
{
    if let Some(rel) = c.spec_voice_frame_linear(abs) {
        let n = c.spec_natural() as int;
        let ch = c.ch();
        let o = c.sample_offset as int;
        assert(rel < n) by {
            if c.spec_valid_loop() {
                lemma_live_loop_keeps_sounding(c, abs);
            }
        }
        assert(n * ch <= c.sample_len) by (nonlinear_arith)
            requires n == c.sample_len as int / ch, ch >= 1;
        assert((o / ch + rel) * ch + ch <= o + c.sample_len) by (nonlinear_arith)
            requires rel < n, n * ch <= c.sample_len, ch >= 1, o >= 0;
        if c.prev_frame != usize::MAX {
            assert((o / ch + c.prev_frame) * ch + ch <= o + c.sample_len) by (nonlinear_arith)
                requires c.prev_frame < n, n * ch <= c.sample_len, ch >= 1, o >= 0;
        }
        assert(0 <= (o / ch + rel) * ch) by (nonlinear_arith)
            requires rel >= 0, ch >= 1, o >= 0;
        assert(0 <= (o / ch + c.prev_frame) * ch) by (nonlinear_arith)
            requires c.prev_frame >= 0, ch >= 1, o >= 0;
    }
}

/// A looping live voice keeps sounding once launched, and reads inside its
/// clamped loop after the first pass.
pub proof fn lemma_live_loop_keeps_sounding<S>(c: AudioClipInstance<S>, abs: u64)
    requires
        c.spec_valid_loop(),
        abs >= c.start_absolute,
    ensures
        c.spec_voice_frame_linear(abs) is Some,
        abs - c.start_absolute >= c.loop_end_clamped() ==>
            c.clip_loop_start <= c.spec_voice_frame_linear(abs)->0 < c.loop_end_clamped(),
{
    let len = (c.loop_end_clamped() - c.clip_loop_start) as u64;
    assert forall|x: u64| #![trigger x % len] c.clip_loop_start <= c.clip_loop_start + x % len < c.loop_end_clamped() by {
        assert(x % len < len);
    }
}

/// A voice reads the same frame in OpenStudio-style resolution as on the
/// linear clock when both clocks agree and the transport has no loop.
pub proof fn lemma_voice_clocks_agree<S>(c: AudioClipInstance<S>, pos: u64, t: TransportPosition)
    requires
        !t.valid_loop(),
        c.start_frame == c.start_absolute,
    ensures
        c.spec_voice_frame(pos, t) == c.spec_voice_frame_linear(pos),
{
}


/// Past its first pass an OpenLive voice with a valid clip loop wraps at the
/// clamped loop end back to the loop start: `k` frames after reaching the
/// end it reads `loop start + k mod (loop length)`. In particular the frame
/// right at the end (`k == 0`) is the loop start, and every later pass
/// repeats the loop with the same phase.
pub proof fn lemma_live_loop_wraps_to_start<S>(c: AudioClipInstance<S>, k: u64)
    requires
        c.spec_valid_loop(),
        c.start_absolute + c.loop_end_clamped() + k <= u64::MAX,
    ensures
        c.spec_voice_frame_linear((c.start_absolute + c.loop_end_clamped() + k) as u64)
            == Some((c.clip_loop_start + (k as int) % (c.loop_end_clamped() - c.clip_loop_start)) as u64),
        c.spec_voice_frame_linear((c.start_absolute + c.loop_end_clamped()) as u64) == Some(c.clip_loop_start),
{
    let len = c.loop_end_clamped() - c.clip_loop_start;
    vstd::arithmetic::div_mod::lemma_mod_add_multiples_vanish(k as int, len);
    vstd::arithmetic::div_mod::lemma_mod_add_multiples_vanish(0, len);
    vstd::arithmetic::div_mod::lemma_small_mod(0, len as nat);
}

/// The OpenStudio voice without a global loop wraps the same way, counted
/// from the clip's start on the transport: `k` frames past the clamped
/// loop end it reads `loop start + k mod (loop length)`.
pub proof fn lemma_studio_loop_wraps_to_start<S>(c: AudioClipInstance<S>, t: TransportPosition, k: u64)
    requires
        c.spec_valid_loop(),
        !t.valid_loop(),
        c.start_frame + c.loop_end_clamped() + k <= u64::MAX,
    ensures
        c.spec_voice_frame((c.start_frame + c.loop_end_clamped() + k) as u64, t)
            == Some((c.clip_loop_start + (k as int) % (c.loop_end_clamped() - c.clip_loop_start)) as u64),
        c.spec_voice_frame((c.start_frame + c.loop_end_clamped()) as u64, t) == Some(c.clip_loop_start),
{
    let len = c.loop_end_clamped() - c.clip_loop_start;
    vstd::arithmetic::div_mod::lemma_mod_add_multiples_vanish(k as int, len);
    vstd::arithmetic::div_mod::lemma_mod_add_multiples_vanish(0, len);
    vstd::arithmetic::div_mod::lemma_small_mod(0, len as nat);
}

/// With a valid global loop an OpenStudio voice past its first pass reads
/// `loop start + (position - global loop start) mod (loop length)`: the
/// wrap is anchored at the global loop start, whatever the clip's own
/// start on the transport.
pub proof fn lemma_studio_loop_anchored_at_global_start<S>(c: AudioClipInstance<S>, t: TransportPosition, pos: u64)
    requires
        c.spec_valid_loop(),
        t.valid_loop(),
        pos >= c.start_frame + c.loop_end_clamped(),
        pos >= t.loop_start_samples,
    ensures
        c.spec_voice_frame(pos, t)
            == Some((c.clip_loop_start + (pos - t.loop_start_samples) % (c.loop_end_clamped() - c.clip_loop_start)) as u64),
{
}


/// A scene launch only touches the tracks that have a clip in the scene: a
/// clip outside the scene whose track has no clip in the scene keeps
/// everything it had, its playing state included; a clip outside the scene
/// on a track that has one is stopped and otherwise kept.
pub proof fn lemma_scene_launch_spares_other_tracks<S>(clips: Seq<AudioClipInstance<S>>, scene: usize, now: u64, now_abs: u64, j: int)
    requires
        0 <= j < clips.len(),
        clips[j].scene_index != scene,
    ensures
        (forall|k: int| 0 <= k < clips.len() && #[trigger] clips[k].track_index == clips[j].track_index
            ==> clips[k].scene_index != scene)
            ==> clips_after_scene(clips, scene, now, now_abs)[j] == clips[j],
        (exists|k: int| 0 <= k < clips.len() && #[trigger] clips[k].track_index == clips[j].track_index
            && clips[k].scene_index == scene)
            ==> clips_after_scene(clips, scene, now, now_abs)[j] == (AudioClipInstance { is_playing: false, ..clips[j] }),
{
    if track_has_clip_in(clips, clips[j].track_index, scene) {
        let k = choose|k: int| 0 <= k < clips.len() && (#[trigger] clips[k]).scene_index == scene
            && clips[k].track_index == clips[j].track_index;
        assert(clips[k].track_index == clips[j].track_index);
    }
    if exists|k: int| 0 <= k < clips.len() && #[trigger] clips[k].track_index == clips[j].track_index
        && clips[k].scene_index == scene {
        let k = choose|k: int| 0 <= k < clips.len() && #[trigger] clips[k].track_index == clips[j].track_index
            && clips[k].scene_index == scene;
        assert(track_has_clip_in(clips, clips[j].track_index, scene));
    }
}


/// Before any wrap a voice plays its audio straight from the start: `e`
/// frames after its start (inside the first pass of a clip loop, or inside
/// the emission window without one) it reads frame `e`, on the linear
/// clock as on the transport.
pub proof fn lemma_voice_first_pass_straight<S>(c: AudioClipInstance<S>, t: TransportPosition, e: u64)
    requires
        c.spec_natural() > 0,
        if c.spec_valid_loop() { e < c.loop_end_clamped() } else { e < c.spec_emission() },
    ensures
        c.start_absolute + e <= u64::MAX ==> c.spec_voice_frame_linear((c.start_absolute + e) as u64) == Some(e),
        c.start_frame + e <= u64::MAX ==> c.spec_voice_frame((c.start_frame + e) as u64, t) == Some(e),
{
}

/// Launching a scene starts each of its clips at the launch instant: the
/// clip plays, its voice starts at the current cursor and linear clock, and
/// nothing else about it changes; a clip already started at this very
/// instant of the linear clock is left as it is.
pub proof fn lemma_scene_launch_starts_row_now<S>(clips: Seq<AudioClipInstance<S>>, scene: usize, now: u64, now_abs: u64, j: int)
    requires
        0 <= j < clips.len(),
        clips[j].scene_index == scene,
    ensures
        ({
            let c = clips_after_scene(clips, scene, now, now_abs)[j];
            &&& c.is_playing && c.start_absolute == now_abs
            &&& (clips[j].is_playing && clips[j].start_absolute == now_abs ==> c == clips[j])
            &&& (!(clips[j].is_playing && clips[j].start_absolute == now_abs) ==>
                c == (AudioClipInstance { is_playing: true, start_frame: now, start_absolute: now_abs, ..clips[j] }))
        }),
{
}

} // verus!
