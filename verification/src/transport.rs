//! The transport's sample clock and its global loop region. The engine owns
//! the wrap; the GUI derives its playhead from the same pure function.
use vstd::prelude::*;

verus! {

/// Sequencer resolution in ticks per quarter note: the single source of
/// truth for the PPQN.
pub const DEFAULT_PPQN: u64 = 960;

/// Playback states of the transport.
#[derive(Debug, Clone, Copy, PartialEq, Eq, Structural)]
pub enum TransportPlaybackState {
    Stopped,
    Playing,
    Paused,
}

/// Position and global loop of the transport, in samples.
#[derive(Debug, Clone, Copy)]
pub struct TransportPosition {
    pub beats_per_bar: u32,
    pub beat_division: u32,
    pub sample_count: u64,
    pub playback_state: TransportPlaybackState,
    /// Global loop region in samples; the engine wraps inside it.
    pub loop_enabled: bool,
    pub loop_start_samples: u64,
    pub loop_end_samples: u64,
}

pub open spec fn sat_sub(a: u64, b: u64) -> u64 {
    if a >= b { (a - b) as u64 } else { 0 }
}

/// Where a position lands inside a loop region `[start, end)`: positions
/// before `end` stay; later ones wrap into the region.
pub open spec fn wrap_into(pos: u64, start: u64, end: u64, enabled: bool) -> u64 {
    if !enabled || end <= start || pos < end {
        pos
    } else {
        (start + (pos - start) as u64 % ((end - start) as u64)) as u64
    }
}

impl TransportPosition {
    pub open spec fn valid_loop(self) -> bool {
        self.loop_enabled && self.loop_end_samples > self.loop_start_samples
    }

    pub open spec fn spec_wrap(self, pos: u64) -> u64 {
        wrap_into(pos, self.loop_start_samples, self.loop_end_samples, self.loop_enabled)
    }

    /// A stopped transport at sample 0 in 4/4, without a loop.
    pub open spec fn new_spec() -> TransportPosition {
        TransportPosition {
            beats_per_bar: 4,
            beat_division: 4,
            sample_count: 0,
            playback_state: TransportPlaybackState::Stopped,
            loop_enabled: false,
            loop_start_samples: 0,
            loop_end_samples: 0,
        }
    }

    /// A stopped transport at sample 0 in 4/4, without a loop.
    pub fn new() -> (t: TransportPosition)
        ensures
            t == Self::new_spec(),
    {
        TransportPosition {
            beats_per_bar: 4,
            beat_division: 4,
            sample_count: 0,
            playback_state: TransportPlaybackState::Stopped,
            loop_enabled: false,
            loop_start_samples: 0,
            loop_end_samples: 0,
        }
    }

    /// Advances the position by the processed samples while playing.
    pub fn advance(&mut self, samples: u64)
        requires
            old(self).playback_state == TransportPlaybackState::Playing ==>
                old(self).sample_count + samples <= u64::MAX,
        ensures
            *final(self) == (TransportPosition {
                sample_count: if old(self).playback_state == TransportPlaybackState::Playing {
                    (old(self).sample_count + samples) as u64
                } else {
                    old(self).sample_count
                },
                ..*old(self)
            }),
    {
        if self.playback_state == TransportPlaybackState::Playing {
            self.sample_count = self.sample_count + samples;
        }
    }

    /// Back to sample 0.
    pub fn reset(&mut self)
        ensures
            *final(self) == (TransportPosition { sample_count: 0, ..*old(self) }),
    {
        self.sample_count = 0;
    }

    /// The transport's PPQN (always `DEFAULT_PPQN`).
    pub fn ppqn(&self) -> (p: u64)
        ensures
            p == DEFAULT_PPQN,
    {
        DEFAULT_PPQN
    }

    /// Sets the global loop region in samples; `end <= start` leaves it
    /// invalid (wrapping is then the identity).
    pub fn set_loop_region_samples(&mut self, start: u64, end: u64)
        ensures
            *final(self) == (TransportPosition {
                loop_start_samples: start,
                loop_end_samples: end,
                ..*old(self)
            }),
    {
        self.loop_start_samples = start;
        self.loop_end_samples = end;
    }

    pub fn set_loop_enabled(&mut self, enabled: bool)
        ensures
            *final(self) == (TransportPosition { loop_enabled: enabled, ..*old(self) }),
    {
        self.loop_enabled = enabled;
    }

    /// Whether there is an enabled, non-empty global loop region.
    pub fn has_valid_loop(&self) -> (valid: bool)
        ensures
            valid == self.valid_loop(),
    {
        self.loop_enabled && self.loop_end_samples > self.loop_start_samples
    }

    /// Length of the global loop region (0 when empty or reversed).
    pub fn loop_length_samples(&self) -> (len: u64)
        ensures
            len == (if self.loop_end_samples > self.loop_start_samples {
                (self.loop_end_samples - self.loop_start_samples) as u64
            } else {
                0
            }),
    {
        self.loop_end_samples.saturating_sub(self.loop_start_samples)
    }

    /// Maps an absolute sample position into the global loop region; the
    /// identity without a valid loop.
    pub fn wrap_sample_count(&self, pos: u64) -> (wrapped: u64)
        ensures
            wrapped == self.spec_wrap(pos),
    {
        if !self.has_valid_loop() || pos < self.loop_end_samples {
            return pos;
        }
        let len = self.loop_length_samples();
        if len == 0 {
            return pos;
        }
        self.loop_start_samples + ((pos - self.loop_start_samples) % len)
    }
}

/// Without a valid loop, wrapping is the identity.
pub proof fn lemma_wrap_identity_without_loop(t: TransportPosition, pos: u64)
    requires
        !t.valid_loop(),
    ensures
        t.spec_wrap(pos) == pos,
{
}

/// With a valid loop, a position at or past the loop start lands inside
/// `[loop_start, loop_end)`, at the same phase modulo the loop length.
pub proof fn lemma_wrap_lands_in_region(t: TransportPosition, pos: u64)
    requires
        t.valid_loop(),
        pos >= t.loop_start_samples,
    ensures
        t.loop_start_samples <= t.spec_wrap(pos) < t.loop_end_samples,
        (t.spec_wrap(pos) - t.loop_start_samples) % ((t.loop_end_samples - t.loop_start_samples) as int)
            == (pos - t.loop_start_samples) % ((t.loop_end_samples - t.loop_start_samples) as int),
{
    let len = (t.loop_end_samples - t.loop_start_samples) as int;
    let d = (pos - t.loop_start_samples) as int;
    if pos >= t.loop_end_samples {
        assert(d % len < len);
        vstd::arithmetic::div_mod::lemma_mod_twice(d, len);
    } else {
        vstd::arithmetic::div_mod::lemma_small_mod(d as nat, len as nat);
    }
}

/// Wrapping twice is wrapping once.
pub proof fn lemma_wrap_idempotent(t: TransportPosition, pos: u64)
    ensures
        t.spec_wrap(t.spec_wrap(pos)) == t.spec_wrap(pos),
{
    if t.valid_loop() && pos >= t.loop_end_samples {
        let len = (t.loop_end_samples - t.loop_start_samples) as int;
        let d = (pos - t.loop_start_samples) as int;
        assert(d % len < len);
    }
}

} // verus!
