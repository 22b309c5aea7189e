//! Clip slots of the session matrix: trigger state, per-clip loop region and
//! the voice that maps transport positions onto frames of the source audio.
use vstd::prelude::*;

verus! {

/// Launch state of a clip slot.
#[derive(Debug, Clone, Copy, PartialEq, Eq, Structural)]
pub enum ClipState {
    Stopped,
    /// Waiting for the next quantization pulse.
    Queued,
    Playing,
    /// Keeps sounding until the end of the quantization cycle.
    Stopping,
}

/// The state number that a raw state byte stands for.
pub open spec fn clip_state_of_u8(value: u8) -> ClipState {
    if value == 1 {
        ClipState::Queued
    } else if value == 2 {
        ClipState::Playing
    } else if value == 3 {
        ClipState::Stopping
    } else {
        ClipState::Stopped
    }
}

/// The byte that stores a state.
pub open spec fn clip_state_to_u8(state: ClipState) -> u8 {
    match state {
        ClipState::Stopped => 0,
        ClipState::Queued => 1,
        ClipState::Playing => 2,
        ClipState::Stopping => 3,
    }
}

impl From<u8> for ClipState {
    /// Decodes a stored state byte; unknown bytes read as `Stopped`.
    fn from(value: u8) -> (state: ClipState) {
        ClipState::from_u8(value)
    }
}

impl vstd::std_specs::convert::FromSpecImpl<u8> for ClipState {
    open spec fn obeys_from_spec() -> bool {
        true
    }

    open spec fn from_spec(v: u8) -> ClipState {
        clip_state_of_u8(v)
    }
}

impl ClipState {
    /// Decodes a stored state byte; unknown bytes read as `Stopped`.
    pub fn from_u8(value: u8) -> (state: ClipState)
        ensures
            state == clip_state_of_u8(value),
    {
        if value == 1 {
            ClipState::Queued
        } else if value == 2 {
            ClipState::Playing
        } else if value == 3 {
            ClipState::Stopping
        } else {
            ClipState::Stopped
        }
    }

    /// The byte under which the state is stored.
    pub fn to_u8(self) -> (value: u8)
        ensures
            value == clip_state_to_u8(self),
    {
        match self {
            ClipState::Stopped => 0,
            ClipState::Queued => 1,
            ClipState::Playing => 2,
            ClipState::Stopping => 3,
        }
    }
}

} // verus!

verus! {

/// Runtime state of the voice that reads a clip's buffer. Without an active
/// clip loop and past the source length the voice is `Finished` and only
/// emits silence.
#[derive(Debug, Clone, Copy, PartialEq, Eq, Structural)]
pub enum VoiceState {
    Active,
    Finished,
}

/// The session matrix's name for the voice state: `Finished` is a slot
/// that the engine no longer reads.
pub type VoiceStatus = VoiceState;

/// How a pad press launches its clip.
#[derive(Debug, Clone, Copy, PartialEq, Eq, Structural)]
pub enum TriggerMode {
    /// Starts and runs until its end or until stopped.
    Trigger,
    /// One press starts, the next one stops (quantized).
    Toggle,
    /// Sounds while the pad is held (gate).
    Repeat,
    /// Switches clips keeping the transport position.
    Legato,
}

/// A clip in a slot of the session matrix.
pub struct Clip {
    pub id: u32,
    /// Preloaded audio buffer this clip plays.
    pub audio_buffer_id: u32,
    pub state: ClipState,
    pub trigger_mode: TriggerMode,
    /// Transport sample at which the clip actually started sounding.
    pub start_sample: u64,
    pub loop_enabled: bool,
    /// Start of the clip's own loop region, in frames.
    pub loop_start: u64,
    /// End of the clip's own loop region, in frames.
    pub loop_end: u64,
    /// Real length of the source audio in frames; 0 means unknown.
    pub total_frames: u64,
}

impl Clip {
    /// The clip has an enabled, non-empty loop region of its own.
    pub open spec fn valid_clip_loop(self) -> bool {
        self.loop_enabled && self.loop_end > self.loop_start
    }

    /// End of the clip loop clamped to the source length (when known).
    pub open spec fn spec_effective_loop_end(self) -> u64 {
        if self.total_frames > 0 && self.total_frames < self.loop_end {
            self.total_frames
        } else {
            self.loop_end
        }
    }

    /// Length in frames the clip plays for: its loop region when valid, else
    /// the source length.
    pub open spec fn spec_loop_length(self) -> u64 {
        if self.valid_clip_loop() {
            (self.loop_end - self.loop_start) as u64
        } else {
            self.total_frames
        }
    }

    /// The source frame the voice reads at a transport position, or `None`
    /// where the voice is silent.
    ///
    /// Before `start_sample` there is nothing. Without a valid clip loop the
    /// voice plays `[0, total_frames)` once. With a clip loop it plays the
    /// first pass straight and afterwards wraps inside the clamped region;
    /// the wrap is anchored at the global loop start when a global loop
    /// region is given, else at the clip's own start.
    pub open spec fn voice_frame(self, global_pos: u64, global_loop: Option<(u64, u64)>) -> Option<u64> {
        if global_pos < self.start_sample {
            None
        } else {
            let elapsed = (global_pos - self.start_sample) as u64;
            if self.valid_clip_loop() {
                let end = self.spec_effective_loop_end();
                let start = if self.loop_start < end { self.loop_start } else { end };
                if end <= start {
                    None
                } else if elapsed < end {
                    Some(elapsed)
                } else {
                    let len = (end - start) as u64;
                    match global_loop {
                        Some((g_start, g_end)) if g_end > g_start => {
                            let since = if global_pos >= g_start { (global_pos - g_start) as u64 } else { 0u64 };
                            Some((start + since % len) as u64)
                        },
                        _ => Some((start + (elapsed - start) as u64 % len) as u64),
                    }
                }
            } else if self.total_frames == 0 || elapsed >= self.total_frames {
                None
            } else {
                Some(elapsed)
            }
        }
    }

    /// The voice state at a transport position.
    pub open spec fn spec_voice_state(self, global_pos: u64, global_loop: Option<(u64, u64)>) -> VoiceState {
        if self.voice_frame(global_pos, global_loop) is Some {
            VoiceState::Active
        } else {
            VoiceState::Finished
        }
    }

    /// The clip after a poll: a `Playing` slot whose voice has finished is
    /// `Stopped`; everything else is kept.
    pub open spec fn after_poll(self, global_pos: u64, global_loop: Option<(u64, u64)>) -> Clip {
        if self.state == ClipState::Playing
            && self.spec_voice_state(global_pos, global_loop) == VoiceState::Finished {
            Clip { state: ClipState::Stopped, ..self }
        } else {
            self
        }
    }

    /// Where the left sample of a frame lies in an interleaved buffer of
    /// `buffer_len` samples: `None` without a clip loop past the source
    /// length (or with unknown length), and `None` outside the buffer.
    pub open spec fn spec_read_index(self, frame: u64, buffer_len: usize, channels: usize) -> Option<usize> {
        let ch: int = if channels == 0 { 1 } else { channels as int };
        if !self.valid_clip_loop() && (self.total_frames == 0 || frame >= self.total_frames) {
            None
        } else if frame * ch >= buffer_len {
            None
        } else {
            Some((frame * ch) as usize)
        }
    }

    /// A fresh clip: stopped, start at sample 0, no loop, unknown length.
    pub fn new(id: u32, audio_buffer_id: u32) -> (clip: Clip)
        ensures
            clip.id == id,
            clip.audio_buffer_id == audio_buffer_id,
            clip.state == ClipState::Stopped,
            clip.trigger_mode == TriggerMode::Trigger,
            clip.start_sample == 0,
            !clip.loop_enabled,
            clip.loop_start == 0,
            clip.loop_end == 0,
            clip.total_frames == 0,
    {
        Clip {
            id,
            audio_buffer_id,
            state: ClipState::Stopped,
            trigger_mode: TriggerMode::Trigger,
            start_sample: 0,
            loop_enabled: false,
            loop_start: 0,
            loop_end: 0,
            total_frames: 0,
        }
    }

    /// Sets the real source length and clamps a valid loop region that runs
    /// past it (dropping the region when nothing of it is left).
    pub fn set_source_length_frames(&mut self, frames: u64)
        ensures
            final(self).total_frames == frames,
            final(self).id == old(self).id,
            final(self).audio_buffer_id == old(self).audio_buffer_id,
            final(self).state == old(self).state,
            final(self).trigger_mode == old(self).trigger_mode,
            final(self).start_sample == old(self).start_sample,
            final(self).loop_enabled == old(self).loop_enabled,
            (old(self).valid_clip_loop() && old(self).loop_end > frames) ==> (
                if frames <= old(self).loop_start {
                    final(self).loop_start == 0 && final(self).loop_end == 0
                } else {
                    final(self).loop_start == old(self).loop_start && final(self).loop_end == frames
                }),
            !(old(self).valid_clip_loop() && old(self).loop_end > frames) ==> (
                final(self).loop_start == old(self).loop_start
                && final(self).loop_end == old(self).loop_end),
            final(self).valid_clip_loop() ==> final(self).loop_end <= frames,
    {
        self.total_frames = frames;
        if self.has_valid_clip_loop() && self.loop_end > frames {
            self.loop_end = frames;
            if self.loop_end <= self.loop_start {
                self.loop_start = 0;
                self.loop_end = 0;
            }
        }
    }

    /// Playback length: the clip loop region when valid, else the real
    /// source length (0 when unknown).
    pub fn loop_length_frames(&self) -> (len: u64)
        ensures
            len == self.spec_loop_length(),
    {
        if self.has_valid_clip_loop() {
            self.loop_end - self.loop_start
        } else {
            self.total_frames
        }
    }

    /// Sets the clip loop points; an empty or reversed window clears both.
    pub fn set_loop_points(&mut self, start: u64, end: u64)
        ensures
            end <= start ==> final(self).loop_start == 0 && final(self).loop_end == 0,
            end > start ==> final(self).loop_start == start && final(self).loop_end == end,
            final(self).id == old(self).id,
            final(self).audio_buffer_id == old(self).audio_buffer_id,
            final(self).state == old(self).state,
            final(self).trigger_mode == old(self).trigger_mode,
            final(self).start_sample == old(self).start_sample,
            final(self).loop_enabled == old(self).loop_enabled,
            final(self).total_frames == old(self).total_frames,
    {
        if end <= start {
            self.loop_start = 0;
            self.loop_end = 0;
        } else {
            self.loop_start = start;
            self.loop_end = end;
        }
    }

    /// Whether the clip has an enabled, non-empty loop region.
    pub fn has_valid_clip_loop(&self) -> (valid: bool)
        ensures
            valid == self.valid_clip_loop(),
    {
        self.loop_enabled && self.loop_end > self.loop_start
    }

    /// The loop end clamped to the real length; unclamped when the length
    /// is unknown.
    pub fn effective_loop_end(&self) -> (end: u64)
        ensures
            end == self.spec_effective_loop_end(),
            end <= self.loop_end,
            self.total_frames > 0 ==> end <= self.total_frames,
    {
        if self.total_frames > 0 {
            if self.total_frames < self.loop_end { self.total_frames } else { self.loop_end }
        } else {
            self.loop_end
        }
    }

    /// Resolves the source frame to read for a transport position (already
    /// wrapped by the global loop). `None` means silence: the voice never
    /// free-runs past the source without an explicit clip loop.
    pub fn resolve_voice_frame(&self, global_pos: u64, global_loop: Option<(u64, u64)>) -> (frame: Option<u64>)
        ensures
            frame == self.voice_frame(global_pos, global_loop),
    {
        if global_pos < self.start_sample {
            return None;
        }
        let elapsed = global_pos - self.start_sample;
        if self.has_valid_clip_loop() {
            let loop_end = self.effective_loop_end();
            let loop_start = if self.loop_start < loop_end { self.loop_start } else { loop_end };
            if loop_end <= loop_start {
                return None;
            }
            let loop_len = loop_end - loop_start;
            if elapsed < loop_end {
                return Some(elapsed);
            }
            if let Some((g_start, g_end)) = global_loop {
                if g_end > g_start {
                    let since_global = global_pos.saturating_sub(g_start);
                    return Some(loop_start + (since_global % loop_len));
                }
            }
            return Some(loop_start + ((elapsed - loop_start) % loop_len));
        }
        if self.total_frames == 0 {
            return None;
        }
        if elapsed >= self.total_frames {
            return None;
        }
        Some(elapsed)
    }

    /// The voice state at a transport position (pure).
    pub fn voice_state(&self, global_pos: u64, global_loop: Option<(u64, u64)>) -> (vs: VoiceState)
        ensures
            vs == self.spec_voice_state(global_pos, global_loop),
    {
        match self.resolve_voice_frame(global_pos, global_loop) {
            Some(_) => VoiceState::Active,
            None => VoiceState::Finished,
        }
    }

    /// Stops the slot when it is `Playing`; returns whether it did.
    pub fn finish_slot_if_playing(&mut self) -> (stopped: bool)
        ensures
            stopped == (old(self).state == ClipState::Playing),
            final(self).state == (if stopped { ClipState::Stopped } else { old(self).state }),
            *final(self) == (Clip { state: final(self).state, ..*old(self) }),
    {
        if self.get_state() == ClipState::Playing {
            self.set_state(ClipState::Stopped);
            true
        } else {
            false
        }
    }

    /// Polls the voice: a finished voice takes a `Playing` slot to
    /// `Stopped` right away. Returns the voice state.
    pub fn poll_voice(&mut self, global_pos: u64, global_loop: Option<(u64, u64)>) -> (vs: VoiceState)
        ensures
            vs == old(self).spec_voice_state(global_pos, global_loop),
            *final(self) == old(self).after_poll(global_pos, global_loop),
    {
        let vs = self.voice_state(global_pos, global_loop);
        if vs == VoiceState::Finished {
            self.finish_slot_if_playing();
        }
        vs
    }

    /// Locates the sample to read for a source frame. Where the clip must be
    /// silent (`None`) a `Playing` slot is stopped, so the engine stops
    /// asking this voice for data.
    pub fn read_sample_index(&mut self, frame: u64, buffer_len: usize, channels: usize) -> (index: Option<usize>)
        ensures
            index == old(self).spec_read_index(frame, buffer_len, channels),
            index is None ==> final(self).state == (if old(self).state == ClipState::Playing {
                ClipState::Stopped
            } else {
                old(self).state
            }),
            index is Some ==> final(self).state == old(self).state,
            *final(self) == (Clip { state: final(self).state, ..*old(self) }),
    {
        let ch = if channels == 0 { 1 } else { channels };
        if !self.has_valid_clip_loop() {
            if self.total_frames == 0 || frame >= self.total_frames {
                self.finish_slot_if_playing();
                return None;
            }
        }
        if frame >= buffer_len as u64 {
            assert(frame * ch >= buffer_len) by (nonlinear_arith)
                requires frame >= buffer_len, ch >= 1;
            self.finish_slot_if_playing();
            return None;
        }
        let f = frame as usize;
        match f.checked_mul(ch) {
            Some(idx) => {
                if idx >= buffer_len {
                    self.finish_slot_if_playing();
                    None
                } else {
                    Some(idx)
                }
            },
            None => {
                self.finish_slot_if_playing();
                None
            },
        }
    }

    /// The sample to read at a transport position: the voice's frame,
    /// located in the buffer. Where the voice is silent (no frame, or
    /// nothing to read) a `Playing` slot is stopped.
    pub fn next_frame_index(&mut self, global_pos: u64, global_loop: Option<(u64, u64)>, buffer_len: usize, channels: usize)
        -> (index: Option<usize>)
        ensures
            index == match old(self).voice_frame(global_pos, global_loop) {
                Some(f) => old(self).spec_read_index(f, buffer_len, channels),
                None => None,
            },
            index is None ==> final(self).state == (if old(self).state == ClipState::Playing {
                ClipState::Stopped
            } else {
                old(self).state
            }),
            index is Some ==> final(self).state == old(self).state,
            *final(self) == (Clip { state: final(self).state, ..*old(self) }),
    {
        match self.resolve_voice_frame(global_pos, global_loop) {
            Some(frame) => self.read_sample_index(frame, buffer_len, channels),
            None => {
                self.finish_slot_if_playing();
                None
            },
        }
    }

    pub fn get_state(&self) -> (state: ClipState)
        ensures
            state == self.state,
    {
        self.state
    }

    pub fn set_state(&mut self, new_state: ClipState)
        ensures
            *final(self) == (Clip { state: new_state, ..*old(self) }),
    {
        self.state = new_state;
    }
}

} // verus!

verus! {

/// Before the clip's start sample the voice is silent.
pub proof fn lemma_silent_before_start(clip: Clip, global_pos: u64, global_loop: Option<(u64, u64)>)
    requires
        global_pos < clip.start_sample,
    ensures
        clip.voice_frame(global_pos, global_loop) is None,
        clip.spec_voice_state(global_pos, global_loop) == VoiceState::Finished,
{
}

/// Without a clip loop the voice never free-runs: from `start_sample +
/// total_frames` on (or always, when the length is unknown) it is silent,
/// whatever the global loop.
pub proof fn lemma_no_clip_loop_silent_past_length(clip: Clip, global_pos: u64, global_loop: Option<(u64, u64)>)
    requires
        !clip.valid_clip_loop(),
        clip.total_frames == 0 || global_pos >= clip.start_sample + clip.total_frames,
    ensures
        clip.voice_frame(global_pos, global_loop) is None,
        clip.spec_voice_state(global_pos, global_loop) == VoiceState::Finished,
{
}

/// Without a clip loop, inside `[start_sample, start_sample + total_frames)`
/// the voice reads the frame that many samples after its start.
pub proof fn lemma_no_clip_loop_plays_once(clip: Clip, global_pos: u64, global_loop: Option<(u64, u64)>)
    requires
        !clip.valid_clip_loop(),
        clip.start_sample <= global_pos,
        global_pos < clip.start_sample + clip.total_frames,
    ensures
        clip.voice_frame(global_pos, global_loop) == Some((global_pos - clip.start_sample) as u64),
{
}

/// The voice never reads past the source: a resolved frame lies below the
/// known source length, and below the loop end when the clip loops.
pub proof fn lemma_voice_frame_in_source(clip: Clip, global_pos: u64, global_loop: Option<(u64, u64)>)
    requires
        clip.voice_frame(global_pos, global_loop) is Some,
    ensures
        clip.total_frames > 0 ==> clip.voice_frame(global_pos, global_loop)->0 < clip.total_frames,
        clip.valid_clip_loop() ==> clip.voice_frame(global_pos, global_loop)->0 < clip.loop_end,
        !clip.valid_clip_loop() ==> clip.voice_frame(global_pos, global_loop)->0 < clip.total_frames,
{
    let end = clip.spec_effective_loop_end();
    let start = if clip.loop_start < end { clip.loop_start } else { end };
    if clip.valid_clip_loop() && end > start {
        let len = (end - start) as u64;
        assert forall|x: u64| #![trigger x % len] start + x % len < end by {
            assert(x % len < len);
        }
    }
}

/// A looping clip whose clamped region is not empty sounds forever once
/// started, and past its loop end it stays inside the region.
pub proof fn lemma_clip_loop_keeps_sounding(clip: Clip, global_pos: u64, global_loop: Option<(u64, u64)>)
    requires
        clip.valid_clip_loop(),
        clip.total_frames == 0 || clip.loop_start < clip.total_frames,
        clip.start_sample <= global_pos,
    ensures
        clip.spec_voice_state(global_pos, global_loop) == VoiceState::Active,
        global_pos - clip.start_sample >= clip.spec_effective_loop_end() ==> ({
            let f = clip.voice_frame(global_pos, global_loop)->0;
            clip.loop_start <= f < clip.spec_effective_loop_end()
        }),
{
    let end = clip.spec_effective_loop_end();
    let start = clip.loop_start;
    let len = (end - start) as u64;
    assert forall|x: u64| #![trigger x % len] start <= start + x % len < end by {
        assert(x % len < len);
    }
}

/// Polling is idempotent: a second poll at the same position changes
/// nothing.
pub proof fn lemma_poll_idempotent(clip: Clip, global_pos: u64, global_loop: Option<(u64, u64)>)
    ensures
        clip.after_poll(global_pos, global_loop).after_poll(global_pos, global_loop)
            == clip.after_poll(global_pos, global_loop),
{
}

/// Polling only ever takes a `Playing` slot to `Stopped`; an active voice
/// keeps its slot.
pub proof fn lemma_poll_only_stops(clip: Clip, global_pos: u64, global_loop: Option<(u64, u64)>)
    ensures
        clip.after_poll(global_pos, global_loop).state == clip.state
            || (clip.state == ClipState::Playing
                && clip.after_poll(global_pos, global_loop).state == ClipState::Stopped),
        clip.spec_voice_state(global_pos, global_loop) == VoiceState::Active
            ==> clip.after_poll(global_pos, global_loop) == clip,
{
}

/// Storing a state and reading it back gives the state.
pub proof fn lemma_state_byte_roundtrip(state: ClipState)
    ensures
        clip_state_of_u8(clip_state_to_u8(state)) == state,
{
}


/// With a valid global loop `(g_start, g_end)`, a looping clip past its
/// first pass reads `loop start + (position - g_start) mod (loop length)`:
/// the wrap is anchored at the global loop start. The frame therefore does
/// not depend on when the clip started, as long as both starts lie a full
/// first pass behind the position.
pub proof fn lemma_clip_loop_anchored_at_global_start(clip: Clip, global_pos: u64, g_start: u64, g_end: u64, other_start: u64)
    requires
        clip.valid_clip_loop(),
        clip.loop_start < clip.spec_effective_loop_end(),
        g_end > g_start,
        global_pos >= clip.start_sample + clip.spec_effective_loop_end(),
        global_pos >= g_start,
    ensures
        clip.voice_frame(global_pos, Some((g_start, g_end)))
            == Some((clip.loop_start + (global_pos - g_start) % (clip.spec_effective_loop_end() - clip.loop_start)) as u64),
        global_pos >= other_start + clip.spec_effective_loop_end() ==>
            (Clip { start_sample: other_start, ..clip }).voice_frame(global_pos, Some((g_start, g_end)))
                == clip.voice_frame(global_pos, Some((g_start, g_end))),
{
}

/// Without a global loop a looping clip wraps at its clamped loop end back
/// to the loop start: `k` frames after reaching the end it reads
/// `loop start + k mod (loop length)`.
pub proof fn lemma_clip_loop_wraps_to_start(clip: Clip, k: u64)
    requires
        clip.valid_clip_loop(),
        clip.loop_start < clip.spec_effective_loop_end(),
        clip.start_sample + clip.spec_effective_loop_end() + k <= u64::MAX,
    ensures
        clip.voice_frame((clip.start_sample + clip.spec_effective_loop_end() + k) as u64, None)
            == Some((clip.loop_start + (k as int) % (clip.spec_effective_loop_end() - clip.loop_start)) as u64),
{
    let len = clip.spec_effective_loop_end() - clip.loop_start;
    vstd::arithmetic::div_mod::lemma_mod_add_multiples_vanish(k as int, len);
}


/// A looping clip plays its first pass straight: `e` frames after its
/// start, before the clamped loop end, it reads frame `e`, whatever the
/// global loop.
pub proof fn lemma_clip_loop_first_pass_straight(clip: Clip, e: u64, global_loop: Option<(u64, u64)>)
    requires
        clip.valid_clip_loop(),
        clip.loop_start < clip.spec_effective_loop_end(),
        e < clip.spec_effective_loop_end(),
        clip.start_sample + e <= u64::MAX,
    ensures
        clip.voice_frame((clip.start_sample + e) as u64, global_loop) == Some(e),
{
}

} // verus!
