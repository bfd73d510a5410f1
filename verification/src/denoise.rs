//! The books of the denoiser, which works on frames of 480 samples.

use crate::error::Error;
use vstd::prelude::*;

verus! {

/// Samples in one frame of the denoiser.
pub const RNNOISE_FRAME_SIZE: usize = 480;

/// Samples per second that the denoiser runs at.
pub const RNNOISE_SAMPLE_RATE: u32 = 48000;

/// The books of a denoiser: whether it is on and the frames it has
/// processed. The noise suppression itself is driven by the caller, frame by
/// frame.
pub struct RnnoiseDenoiser {
    enabled: bool,
    frame_count: u64,
}

impl RnnoiseDenoiser {
    /// Whether the denoiser is on.
    pub closed spec fn on(&self) -> bool {
        self.enabled
    }

    /// Number of frames processed.
    pub closed spec fn frames(&self) -> u64 {
        self.frame_count
    }

    /// Number of whole frames among `samples` samples.
    pub open spec fn whole_frames(samples: usize) -> usize {
        (samples / RNNOISE_FRAME_SIZE) as usize
    }

    /// A denoiser that is on and has processed nothing. Making one never
    /// fails.
    pub fn new() -> (r: Result<Self, Error>)
        ensures
            r matches Ok(d) && d.on() && d.frames() == 0,
    {
        Ok(Self { enabled: true, frame_count: 0 })
    }

    /// Whether a frame of `len` samples is to be processed: the denoiser
    /// must be on and the frame must have 480 samples. A frame that is to be
    /// processed is counted.
    pub fn process_frame(&mut self, len: usize) -> (process: bool)
        requires
            old(self).frames() < u64::MAX,
        ensures
            process == (old(self).on() && len == RNNOISE_FRAME_SIZE),
            final(self).on() == old(self).on(),
            final(self).frames() == if process {
                (old(self).frames() + 1) as u64
            } else {
                old(self).frames()
            },
    {
        if !self.enabled || len != RNNOISE_FRAME_SIZE {
            return false;
        }
        self.frame_count = self.frame_count + 1;
        true
    }

    /// What processing `samples` samples makes of the books, and how many
    /// frames are to be processed: every whole frame of 480 samples while
    /// the denoiser is on, none while it is off. The frames that are to be
    /// processed are counted.
    pub open spec fn processed(&self, samples: usize, after: Self, frames: usize) -> bool {
        &&& frames == if self.on() {
            Self::whole_frames(samples)
        } else {
            0
        }
        &&& after.on() == self.on()
        &&& after.frames() == self.frames() + frames
    }

    /// How many frames of `samples` samples are to be processed.
    pub fn process(&mut self, samples: usize) -> (frames: usize)
        requires
            old(self).frames() + samples / RNNOISE_FRAME_SIZE <= u64::MAX,
        ensures
            old(self).processed(samples, *final(self), frames),
    {
        if !self.enabled {
            return 0;
        }
        let frames = samples / RNNOISE_FRAME_SIZE;
        self.frame_count = self.frame_count + frames as u64;
        frames
    }

    /// Forgets the frames processed.
    pub fn reset(&mut self)
        ensures
            final(self).on() == old(self).on(),
            final(self).frames() == 0,
    {
        self.frame_count = 0;
    }

    /// Whether the denoiser is on.
    pub fn is_enabled(&self) -> (b: bool)
        ensures
            b == self.on(),
    {
        self.enabled
    }

    /// Turns the denoiser on or off; the count of frames stays.
    pub fn set_enabled(&mut self, enabled: bool)
        ensures
            final(self).on() == enabled,
            final(self).frames() == old(self).frames(),
    {
        self.enabled = enabled;
    }

    /// Number of frames processed.
    pub fn frame_count(&self) -> (n: u64)
        ensures
            n == self.frames(),
    {
        self.frame_count
    }
}

impl Default for RnnoiseDenoiser {
    fn default() -> (d: Self)
        ensures
            d.on(),
            d.frames() == 0,
    {
        Self { enabled: true, frame_count: 0 }
    }
}

/// Processing samples with the denoiser on advances the count of frames by
/// exactly the number of whole frames among them: by `n` for `n` times 480
/// samples and fewer than 480 more.
pub proof fn lemma_whole_frames_are_counted(
    before: RnnoiseDenoiser,
    n: usize,
    more: usize,
    samples: usize,
    after: RnnoiseDenoiser,
    frames: usize,
)
    requires
        before.on(),
        more < RNNOISE_FRAME_SIZE,
        samples == n * RNNOISE_FRAME_SIZE + more,
        before.processed(samples, after, frames),
    ensures
        frames == n,
        after.frames() == before.frames() + n,
{
    assert((n * 480 + more) / 480 == n) by (nonlinear_arith)
        requires
            0 <= more < 480,
            n >= 0,
    ;
}

} // verus!
