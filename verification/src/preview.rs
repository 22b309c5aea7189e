//! The read cursor of the file-browser preview: how much of the decoded
//! sample each audio block mixes, and when the preview ends.
use vstd::prelude::*;

verus! {

/// Playback position of the preview over interleaved samples.
pub struct PreviewCursor {
    /// Next sample to read.
    pub cursor: usize,
    /// 2 for stereo pairs; anything else is read as mono.
    pub channels: usize,
    /// Number of valid samples.
    pub length: usize,
    pub is_playing: bool,
    /// Generation of the loaded sample (older decodes are stale).
    pub generation: u64,
}

/// The reads of one block: `frames` output frames taken from sample
/// `first` on, `step` samples apart (a stereo pair per step when `stereo`,
/// one mono sample copied to both sides otherwise).
#[derive(Clone, Copy, Debug, PartialEq, Eq, Structural)]
pub struct PreviewBlock {
    pub first: usize,
    pub frames: usize,
    pub step: usize,
    pub stereo: bool,
}

impl PreviewCursor {
    pub open spec fn step(self) -> int {
        if self.channels == 2 { 2 } else { 1 }
    }

    /// Output frames the remaining data can fill from the cursor on.
    pub open spec fn available(self, active_len: int) -> int {
        if active_len > self.cursor {
            (active_len - self.cursor) / self.step()
        } else {
            0
        }
    }

    /// Frames mixed into an output of `out_len` interleaved stereo samples.
    pub open spec fn mixed_frames(self, out_len: usize, active_len: int) -> int {
        let n_out: int = out_len as int / 2;
        if self.available(active_len) < n_out { self.available(active_len) } else { n_out }
    }

    /// The cursor after a block: every attempted read moves it by one step
    /// (the failed one included); playback ends when the data runs out.
    pub open spec fn after_block(self, out_len: usize, data_len: usize) -> PreviewCursor {
        let active_len: int = if self.length < data_len { self.length as int } else { data_len as int };
        let n_out: int = out_len as int / 2;
        let m = self.mixed_frames(out_len, active_len);
        if !self.is_playing {
            self
        } else if m < n_out {
            PreviewCursor { cursor: (self.cursor + self.step() * (m + 1)) as usize, is_playing: false, ..self }
        } else {
            let c = self.cursor + self.step() * n_out;
            PreviewCursor { cursor: c as usize, is_playing: c < active_len, ..self }
        }
    }

    /// An idle cursor: nothing loaded, mono, generation 0.
    pub fn new() -> (p: PreviewCursor)
        ensures
            p.cursor == 0 && p.channels == 1 && p.length == 0 && !p.is_playing && p.generation == 0,
    {
        PreviewCursor { cursor: 0, channels: 1, length: 0, is_playing: false, generation: 0 }
    }

    /// Starts playing freshly loaded data of `length` samples from the top.
    pub fn start(&mut self, length: usize, channels: usize, generation: u64)
        ensures
            final(self).cursor == 0,
            final(self).channels == (if channels == 0 { 1 } else { channels }),
            final(self).length == length,
            final(self).generation == generation,
            final(self).is_playing,
    {
        self.length = length;
        self.channels = if channels == 0 { 1 } else { channels };
        self.cursor = 0;
        self.generation = generation;
        self.is_playing = true;
    }

    /// Stops and rewinds.
    pub fn stop(&mut self)
        ensures
            *final(self) == (PreviewCursor { is_playing: false, cursor: 0, ..*old(self) }),
    {
        self.is_playing = false;
        self.cursor = 0;
    }

    /// Plans the reads of one block of `out_len` interleaved stereo output
    /// samples over data of `data_len` samples, and moves the cursor.
    pub fn plan_block(&mut self, out_len: usize, data_len: usize) -> (plan: PreviewBlock)
        requires
            old(self).cursor + out_len + 2 <= usize::MAX,
        ensures
            *final(self) == old(self).after_block(out_len, data_len),
            plan.first == old(self).cursor,
            plan.step == old(self).step(),
            plan.stereo == (old(self).channels == 2),
            plan.frames == (if old(self).is_playing {
                old(self).mixed_frames(out_len,
                    if old(self).length < data_len { old(self).length as int } else { data_len as int })
            } else {
                0
            }),
    {
        let stereo = self.channels == 2;
        let step: usize = if stereo { 2 } else { 1 };
        let first = self.cursor;
        if !self.is_playing {
            return PreviewBlock { first, frames: 0, step, stereo };
        }
        let active_len = if self.length < data_len { self.length } else { data_len };
        let n_out = out_len / 2;
        let available = if active_len > self.cursor { (active_len - self.cursor) / step } else { 0 };
        let m = if available < n_out { available } else { n_out };
        if m < n_out {
            assert(step * (m + 1) <= out_len + 2) by (nonlinear_arith)
                requires m < n_out, n_out == out_len / 2, step == 1 || step == 2;
            self.cursor = self.cursor + step * (m + 1);
            self.is_playing = false;
        } else {
            assert(step * n_out <= out_len) by (nonlinear_arith)
                requires n_out == out_len / 2, step == 1 || step == 2;
            self.cursor = self.cursor + step * n_out;
            self.is_playing = self.cursor < active_len;
        }
        PreviewBlock { first, frames: m, step, stereo }
    }
}

/// The planned reads stay inside the data: every mixed frame's samples
/// (both of a stereo pair) lie below the valid length.
pub proof fn lemma_preview_reads_in_bounds(p: PreviewCursor, out_len: usize, data_len: usize, j: int)
    requires
        p.is_playing,
        0 <= j < p.mixed_frames(out_len, if p.length < data_len { p.length as int } else { data_len as int }),
    ensures
        p.cursor + j * p.step() + p.step() - 1 < (if p.length < data_len { p.length as int } else { data_len as int }),
{
    let a: int = if p.length < data_len { p.length as int } else { data_len as int };
    let st = p.step();
    let c = p.cursor as int;
    assert(j < (a - c) / st);
    assert(j * st + st <= a - c) by (nonlinear_arith)
        requires j < (a - c) / st, st >= 1, a - c >= 0, j >= 0;
}

/// Stereo data is not played at half speed: a full block moves the cursor
/// by one stereo pair per output frame.
pub proof fn lemma_preview_full_block_advance(p: PreviewCursor, out_len: usize, data_len: usize)
    requires
        p.is_playing,
        p.channels == 2,
        p.mixed_frames(out_len, if p.length < data_len { p.length as int } else { data_len as int }) == out_len / 2,
    ensures
        p.after_block(out_len, data_len).cursor == p.cursor + 2 * (out_len / 2),
{
}

} // verus!
