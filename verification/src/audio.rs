//! The configuration of the audio pipeline and the ring of samples between
//! the device and the pipeline.

use vstd::prelude::*;

verus! {

/// Samples per second.
pub const SAMPLE_RATE: u32 = 48000;

/// Number of channels: mono.
pub const CHANNELS: u16 = 1;

/// Samples in a frame: twenty milliseconds.
pub const FRAME_SIZE: usize = 960;

/// Bits per second that the codec aims at unless told otherwise.
pub const BITRATE: i32 = 32000;

/// Most frames that a ring of samples keeps before it drops the oldest.
pub const MAX_BUFFERED_FRAMES: usize = 10;

/// What an audio pipeline is configured with.
#[derive(Debug, Clone)]
pub struct AudioConfig {
    pub sample_rate: u32,
    pub channels: u16,
    pub frame_size: usize,
    pub bitrate: i32,
    pub enable_noise_suppression: bool,
    pub enable_echo_cancellation: bool,
    pub input_device: Option<String>,
    pub output_device: Option<String>,
}

/// Mono at 48 kHz in frames of 960 samples at 32 kbit/s, with noise
/// suppression and echo cancellation, on the default devices.
pub open spec fn default_audio_config() -> AudioConfig {
    AudioConfig {
        sample_rate: SAMPLE_RATE,
        channels: CHANNELS,
        frame_size: FRAME_SIZE,
        bitrate: BITRATE,
        enable_noise_suppression: true,
        enable_echo_cancellation: true,
        input_device: None,
        output_device: None,
    }
}

impl Default for AudioConfig {
    fn default() -> (c: Self)
        ensures
            c == default_audio_config(),
    {
        Self {
            sample_rate: SAMPLE_RATE,
            channels: CHANNELS,
            frame_size: FRAME_SIZE,
            bitrate: BITRATE,
            enable_noise_suppression: true,
            enable_echo_cancellation: true,
            input_device: None,
            output_device: None,
        }
    }
}

impl AudioConfig {
    /// A copy of the configuration.
    pub fn duplicate(&self) -> (c: Self)
        ensures
            c == *self,
    {
        Self {
            sample_rate: self.sample_rate,
            channels: self.channels,
            frame_size: self.frame_size,
            bitrate: self.bitrate,
            enable_noise_suppression: self.enable_noise_suppression,
            enable_echo_cancellation: self.enable_echo_cancellation,
            input_device: match &self.input_device {
                Some(d) => Some(d.clone()),
                None => None,
            },
            output_device: match &self.output_device {
                Some(d) => Some(d.clone()),
                None => None,
            },
        }
    }
}

/// What is known of an audio device.
#[derive(Debug, Clone)]
pub struct AudioDeviceInfo {
    pub name: String,
    pub is_input: bool,
    pub is_default: bool,
    pub channels: u16,
    pub sample_rate: u32,
}

/// Counts of what went through a pipeline.
#[derive(Debug, Clone, Copy, PartialEq, Eq, Structural)]
pub struct AudioStats {
    pub frames_processed: u64,
    pub frames_dropped: u64,
}

/// What a ring holds after samples arrived: the samples it held and the new
/// ones, less whole frames from the front until no more than ten frames are
/// left.
pub open spec fn trimmed(samples: Seq<u32>, frame_size: int) -> Seq<u32>
    decreases samples.len(),
{
    if frame_size > 0 && samples.len() > MAX_BUFFERED_FRAMES * frame_size {
        trimmed(samples.subrange(frame_size, samples.len() as int), frame_size)
    } else {
        samples
    }
}

/// Number of whole frames that trimming drops.
pub open spec fn dropped_frames(samples: Seq<u32>, frame_size: int) -> nat
    decreases samples.len(),
{
    if frame_size > 0 && samples.len() > MAX_BUFFERED_FRAMES * frame_size {
        1 + dropped_frames(samples.subrange(frame_size, samples.len() as int), frame_size)
    } else {
        0
    }
}

/// A ring of samples between a device and the pipeline. Samples are carried
/// as the bit patterns of 32-bit floating-point numbers.
pub struct SampleRing {
    samples: Vec<u32>,
    frame_size: usize,
    stats: AudioStats,
}

impl SampleRing {
    /// The samples held, oldest first.
    pub closed spec fn held(&self) -> Seq<u32> {
        self.samples@
    }

    /// Samples in one frame.
    pub closed spec fn frame_len(&self) -> usize {
        self.frame_size
    }

    /// The counts so far.
    pub closed spec fn counts(&self) -> AudioStats {
        self.stats
    }

    /// An empty ring for frames of `frame_size` samples, of which a frame
    /// has at least one.
    pub fn new(frame_size: usize) -> (r: Self)
        requires
            frame_size > 0,
        ensures
            r.held() == Seq::<u32>::empty(),
            r.frame_len() == frame_size,
            r.counts() == (AudioStats { frames_processed: 0, frames_dropped: 0 }),
    {
        Self { samples: Vec::new(), frame_size, stats: AudioStats { frames_processed: 0, frames_dropped: 0 } }
    }

    /// Takes in samples from the device and drops the oldest frames beyond
    /// ten; tells how many frames were dropped.
    pub fn push_samples(&mut self, samples: &[u32]) -> (dropped: usize)
        requires
            old(self).frame_len() > 0,
        ensures
            final(self).frame_len() == old(self).frame_len(),
            final(self).held() == trimmed(old(self).held() + samples@, old(self).frame_len() as int),
            dropped == dropped_frames(old(self).held() + samples@, old(self).frame_len() as int),
            final(self).counts().frames_processed == old(self).counts().frames_processed,
            final(self).counts().frames_dropped == if old(self).counts().frames_dropped + dropped
                > u64::MAX {
                u64::MAX
            } else {
                (old(self).counts().frames_dropped + dropped) as u64
            },
    {
        self.samples.extend_from_slice(samples);
        let ghost all = self.samples@;
        let total = self.samples.len();
        let limit = match MAX_BUFFERED_FRAMES.checked_mul(self.frame_size) {
            Some(l) => l,
            None => {
                assert(total <= MAX_BUFFERED_FRAMES * self.frame_size);
                assert(trimmed(all, self.frame_size as int) == all);
                assert(dropped_frames(all, self.frame_size as int) == 0);
                return 0;
            },
        };
        let mut dropped: usize = 0;
        let mut from: usize = 0;
        assert(all.subrange(0, total as int) =~= all);
        while total - from > limit
            invariant
                from <= total,
                total == all.len(),
                all == old(self).held() + samples@,
                self.samples@ == all,
                self.frame_size == old(self).frame_len(),
                self.stats == old(self).counts(),
                self.frame_size > 0,
                limit == MAX_BUFFERED_FRAMES * self.frame_size,
                dropped <= from,
                trimmed(all, self.frame_size as int) == trimmed(
                    all.subrange(from as int, total as int),
                    self.frame_size as int,
                ),
                dropped_frames(all, self.frame_size as int) == dropped + dropped_frames(
                    all.subrange(from as int, total as int),
                    self.frame_size as int,
                ),
            decreases total - from,
        {
            proof {
                let rest = all.subrange(from as int, total as int);
                assert(rest.subrange(self.frame_size as int, rest.len() as int) =~= all.subrange(
                    from + self.frame_size,
                    total as int,
                ));
            }
            from += self.frame_size;
            dropped += 1;
        }
        proof {
            let rest = all.subrange(from as int, total as int);
            assert(trimmed(rest, self.frame_size as int) == rest);
            assert(dropped_frames(rest, self.frame_size as int) == 0);
        }
        if from > 0 {
            let kept = vstd::slice::slice_to_vec(
                vstd::slice::slice_subrange(self.samples.as_slice(), from, total),
            );
            self.samples = kept;
        }
        self.stats.frames_dropped = self.stats.frames_dropped.saturating_add(dropped as u64);
        dropped
    }

    /// Takes the oldest frame out, if a whole frame is held.
    pub fn take_frame(&mut self) -> (frame: Option<Vec<u32>>)
        ensures
            final(self).frame_len() == old(self).frame_len(),
            final(self).counts().frames_dropped == old(self).counts().frames_dropped,
            match frame {
                Some(f) => {
                    &&& old(self).held().len() >= old(self).frame_len()
                    &&& f@ == old(self).held().subrange(0, old(self).frame_len() as int)
                    &&& final(self).held() == old(self).held().subrange(
                        old(self).frame_len() as int,
                        old(self).held().len() as int,
                    )
                    &&& final(self).counts().frames_processed == if old(self).counts().frames_processed == u64::MAX {
                        u64::MAX
                    } else {
                        (old(self).counts().frames_processed + 1) as u64
                    }
                },
                None => {
                    &&& old(self).held().len() < old(self).frame_len()
                    &&& final(self).held() == old(self).held()
                    &&& final(self).counts() == old(self).counts()
                },
            },
    {
        if self.samples.len() < self.frame_size {
            return None;
        }
        let frame = vstd::slice::slice_to_vec(
            vstd::slice::slice_subrange(self.samples.as_slice(), 0, self.frame_size),
        );
        let rest = vstd::slice::slice_to_vec(
            vstd::slice::slice_subrange(self.samples.as_slice(), self.frame_size, self.samples.len()),
        );
        self.samples = rest;
        self.stats.frames_processed = self.stats.frames_processed.saturating_add(1);
        Some(frame)
    }

    /// Number of samples held.
    pub fn len(&self) -> (n: usize)
        ensures
            n == self.held().len(),
    {
        self.samples.len()
    }

    /// The counts so far.
    pub fn get_stats(&self) -> (s: AudioStats)
        ensures
            s == self.counts(),
    {
        self.stats
    }
}

} // verus!
