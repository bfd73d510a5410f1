//! The books of the audio processor and the choice of a bitrate from the
//! state of the network.

use crate::audio::{AudioConfig, FRAME_SIZE};
use crate::codec::{clamped_bitrate, EncodedFrame, OpusConfig, OpusDecoder, OpusEncoder, OpusMode};
use crate::denoise::RnnoiseDenoiser;
use crate::error::Error;
use vstd::prelude::*;

verus! {

/// Most samples of far-end audio that a processor keeps: four frames.
pub const MAX_FAR_END_SAMPLES: usize = 3840;

/// Most measurements that a bitrate controller remembers.
pub const MAX_HISTORY: usize = 10;

/// What an audio processor is configured with: the pipeline, the codec, and
/// whether to suppress noise and cancel echo.
pub struct AudioProcessorConfig {
    pub audio: AudioConfig,
    pub opus: OpusConfig,
    pub enable_denoising: bool,
    pub enable_echo_cancellation: bool,
}

impl Default for AudioProcessorConfig {
    fn default() -> (c: Self)
        ensures
            c.audio == crate::audio::default_audio_config(),
            c.opus == crate::codec::default_opus_config(),
            c.enable_denoising,
            c.enable_echo_cancellation,
    {
        Self {
            audio: AudioConfig::default(),
            opus: OpusConfig::default(),
            enable_denoising: true,
            enable_echo_cancellation: true,
        }
    }
}

impl AudioProcessorConfig {
    /// The same configuration at another bitrate: the codec gets it brought
    /// into its range, the device setting gets it as given.
    pub fn with_bitrate(self, bitrate: i32) -> (c: Self)
        ensures
            c.opus == (OpusConfig { bitrate: clamped_bitrate(bitrate), ..self.opus }),
            c.audio == (AudioConfig { bitrate, ..self.audio }),
            c.enable_denoising == self.enable_denoising,
            c.enable_echo_cancellation == self.enable_echo_cancellation,
    {
        let mut c = self;
        c.opus = c.opus.with_bitrate(bitrate);
        c.audio.bitrate = bitrate;
        c
    }

    /// The same configuration with the codec in another mode.
    pub fn with_mode(self, mode: OpusMode) -> (c: Self)
        ensures
            c.opus == (OpusConfig { mode, ..self.opus }),
            c.audio == self.audio,
            c.enable_denoising == self.enable_denoising,
            c.enable_echo_cancellation == self.enable_echo_cancellation,
    {
        let mut c = self;
        c.opus = c.opus.with_mode(mode);
        c
    }

    /// The same configuration with noise suppression on or off.
    pub fn with_denoising(self, enable: bool) -> (c: Self)
        ensures
            c.opus == self.opus,
            c.audio == (AudioConfig { enable_noise_suppression: enable, ..self.audio }),
            c.enable_denoising == enable,
            c.enable_echo_cancellation == self.enable_echo_cancellation,
    {
        let mut c = self;
        c.enable_denoising = enable;
        c.audio.enable_noise_suppression = enable;
        c
    }

    /// The same configuration with forward error correction on or off.
    pub fn with_fec(self, enable: bool) -> (c: Self)
        ensures
            c.opus == (OpusConfig { enable_fec: enable, ..self.opus }),
            c.audio == self.audio,
            c.enable_denoising == self.enable_denoising,
            c.enable_echo_cancellation == self.enable_echo_cancellation,
    {
        let mut c = self;
        c.opus = c.opus.with_fec(enable);
        c
    }

    /// The same configuration with echo cancellation on or off.
    pub fn with_echo_cancellation(self, enable: bool) -> (c: Self)
        ensures
            c.opus == self.opus,
            c.audio == (AudioConfig { enable_echo_cancellation: enable, ..self.audio }),
            c.enable_denoising == self.enable_denoising,
            c.enable_echo_cancellation == enable,
    {
        let mut c = self;
        c.enable_echo_cancellation = enable;
        c.audio.enable_echo_cancellation = enable;
        c
    }
}

/// What a processor has done so far. The average frame size is in bytes, the
/// effective bitrate in bits per second, both rounded down.
#[derive(Debug, Clone, Copy, PartialEq, Eq, Structural)]
pub struct ProcessorStats {
    pub frames_processed: u64,
    pub bytes_encoded: u64,
    pub avg_frame_size: u64,
    pub effective_bitrate: u64,
    pub denoising_enabled: bool,
    pub echo_cancellation_enabled: bool,
}

/// The stats of a processor that has encoded `bytes` bytes in `frames`
/// frames of twenty milliseconds.
pub open spec fn stats_of(frames: u64, bytes: u64, denoising: bool, echo_cancellation: bool) -> ProcessorStats {
    ProcessorStats {
        frames_processed: frames,
        bytes_encoded: bytes,
        avg_frame_size: if frames > 0 {
            bytes / frames
        } else {
            0
        },
        effective_bitrate: if frames > 0 {
            (bytes as int * 8 * 50 / frames as int) as u64
        } else {
            0
        },
        denoising_enabled: denoising,
        echo_cancellation_enabled: echo_cancellation,
    }
}

/// The books of the processing between microphone and network: encoder and
/// decoder, whether noise suppression and echo cancellation are on, the
/// far-end audio kept for the echo canceller, and what was encoded so far.
/// Samples are carried as the bit patterns of 32-bit floating-point numbers.
pub struct AudioProcessor {
    encoder: OpusEncoder,
    decoder: OpusDecoder,
    denoiser: Option<RnnoiseDenoiser>,
    echo_cancellation: bool,
    config: AudioProcessorConfig,
    frames_processed: u64,
    bytes_encoded: u64,
    far_end_buffer: Vec<u32>,
}

/// A processor as plain values.
pub struct ProcessorView {
    pub bitrate: i32,
    pub encoded_frames: u64,
    pub denoising: bool,
    pub echo_cancellation: bool,
    pub frames_processed: u64,
    pub bytes_encoded: u64,
    pub far_end: Seq<u32>,
}

/// The far-end audio kept after a frame arrived: what was kept and the
/// frame, less the oldest 960 samples if that is more than four frames.
pub open spec fn far_end_after(kept: Seq<u32>, frame: Seq<u32>) -> Seq<u32> {
    let all = kept + frame;
    if all.len() > MAX_FAR_END_SAMPLES {
        all.subrange(FRAME_SIZE as int, all.len() as int)
    } else {
        all
    }
}

impl View for AudioProcessor {
    type V = ProcessorView;

    closed spec fn view(&self) -> ProcessorView {
        ProcessorView {
            bitrate: self.encoder.spec_config().bitrate,
            encoded_frames: self.encoder.frames(),
            denoising: self.denoiser is Some,
            echo_cancellation: self.echo_cancellation,
            frames_processed: self.frames_processed,
            bytes_encoded: self.bytes_encoded,
            far_end: self.far_end_buffer@,
        }
    }
}

impl AudioProcessor {
    /// The books of a processor for `config`. Opening them never fails.
    pub fn new(config: AudioProcessorConfig) -> (r: Result<Self, Error>)
        ensures
            r matches Ok(p) && p@ == (ProcessorView {
                bitrate: config.opus.bitrate,
                encoded_frames: 0,
                denoising: config.enable_denoising,
                echo_cancellation: config.enable_echo_cancellation,
                frames_processed: 0,
                bytes_encoded: 0,
                far_end: Seq::empty(),
            }) && p.spec_config() == config,
    {
        let encoder = match OpusEncoder::new(config.opus) {
            Ok(e) => e,
            Err(e) => {
                return Err(e);
            },
        };
        let channels: u8 = if config.audio.channels > 255 {
            255
        } else {
            config.audio.channels as u8
        };
        let decoder = match OpusDecoder::new(config.audio.sample_rate, channels) {
            Ok(d) => d,
            Err(e) => {
                return Err(e);
            },
        };
        let denoiser = if config.enable_denoising {
            match RnnoiseDenoiser::new() {
                Ok(d) => Some(d),
                Err(e) => {
                    return Err(e);
                },
            }
        } else {
            None
        };
        let echo_cancellation = config.enable_echo_cancellation;
        Ok(
            Self {
                encoder,
                decoder,
                denoiser,
                echo_cancellation,
                config,
                frames_processed: 0,
                bytes_encoded: 0,
                far_end_buffer: Vec::new(),
            },
        )
    }

    /// Whether a frame of `len` samples may be processed: it must have 960.
    pub fn check_frame_size(&self, len: usize) -> (r: Result<(), Error>)
        ensures
            match r {
                Ok(()) => len == FRAME_SIZE,
                Err(e) => len != FRAME_SIZE && e.is_audio(
                    crate::codec::reason_invalid_frame_size(len),
                ),
            },
    {
        self.encoder.check_frame_size(len)
    }

    /// Counts a frame that was processed and encoded to `data`, and wraps it.
    pub fn frame_encoded(&mut self, data: Vec<u8>) -> (frame: EncodedFrame)
        requires
            old(self)@.encoded_frames < u64::MAX / 960,
            old(self)@.frames_processed < u64::MAX,
            old(self)@.bytes_encoded + data@.len() <= u64::MAX,
        ensures
            final(self)@ == (ProcessorView {
                encoded_frames: (old(self)@.encoded_frames + 1) as u64,
                frames_processed: (old(self)@.frames_processed + 1) as u64,
                bytes_encoded: (old(self)@.bytes_encoded + data@.len()) as u64,
                ..old(self)@
            }),
            frame == (EncodedFrame {
                data,
                sequence: (old(self)@.encoded_frames + 1) as u64,
                timestamp: ((old(self)@.encoded_frames + 1) * 960) as u64,
                bitrate: old(self)@.bitrate,
            }),
            final(self).spec_config() == old(self).spec_config(),
    {
        let len = data.len() as u64;
        let frame = self.encoder.frame_encoded(data);
        self.frames_processed = self.frames_processed + 1;
        self.bytes_encoded = self.bytes_encoded + len;
        frame
    }

    /// Brings `bitrate` into the range of the codec and takes it down; gives
    /// the bitrate taken.
    pub fn set_bitrate(&mut self, bitrate: i32) -> (b: i32)
        ensures
            b == clamped_bitrate(bitrate),
            final(self)@ == (ProcessorView { bitrate: b, ..old(self)@ }),
            final(self).spec_config() == old(self).spec_config(),
    {
        self.encoder.set_bitrate(bitrate)
    }

    /// Turns noise suppression on or off.
    pub fn set_denoising(&mut self, enabled: bool)
        ensures
            final(self)@ == (ProcessorView { denoising: enabled, ..old(self)@ }),
            final(self).spec_config() == (AudioProcessorConfig {
                enable_denoising: enabled,
                ..old(self).spec_config()
            }),
    {
        if enabled && self.denoiser.is_none() {
            self.denoiser = RnnoiseDenoiser::new().ok();
        } else if !enabled {
            self.denoiser = None;
        }
        self.config.enable_denoising = enabled;
    }

    /// Turns echo cancellation on or off.
    pub fn set_echo_cancellation(&mut self, enabled: bool)
        ensures
            final(self)@ == (ProcessorView { echo_cancellation: enabled, ..old(self)@ }),
            final(self).spec_config() == (AudioProcessorConfig {
                enable_echo_cancellation: enabled,
                ..old(self).spec_config()
            }),
    {
        self.echo_cancellation = enabled;
        self.config.enable_echo_cancellation = enabled;
    }

    /// Keeps a frame of far-end audio for the echo canceller, and lets go of
    /// the oldest 960 samples once more than four frames are kept.
    pub fn push_far_end(&mut self, frame: &[u32])
        ensures
            final(self)@ == (ProcessorView {
                far_end: far_end_after(old(self)@.far_end, frame@),
                ..old(self)@
            }),
            final(self).spec_config() == old(self).spec_config(),
    {
        self.far_end_buffer.extend_from_slice(frame);
        assert(self.far_end_buffer@ =~= old(self)@.far_end + frame@);
        if self.far_end_buffer.len() > MAX_FAR_END_SAMPLES {
            let kept = vstd::slice::slice_to_vec(
                vstd::slice::slice_subrange(
                    self.far_end_buffer.as_slice(),
                    FRAME_SIZE,
                    self.far_end_buffer.len(),
                ),
            );
            self.far_end_buffer = kept;
        }
        assert(self.far_end_buffer@ =~= far_end_after(old(self)@.far_end, frame@));
    }

    /// Takes up to 960 of the oldest far-end samples out and gives them if
    /// they make a whole frame; fewer are let go of.
    pub fn take_far_end(&mut self) -> (frame: Option<Vec<u32>>)
        ensures
            final(self)@ == (ProcessorView {
                far_end: if old(self)@.far_end.len() >= FRAME_SIZE {
                    old(self)@.far_end.subrange(FRAME_SIZE as int, old(self)@.far_end.len() as int)
                } else {
                    Seq::empty()
                },
                ..old(self)@
            }),
            match frame {
                Some(f) => old(self)@.far_end.len() >= FRAME_SIZE && f@ == old(self)@.far_end.subrange(
                    0,
                    FRAME_SIZE as int,
                ),
                None => old(self)@.far_end.len() < FRAME_SIZE,
            },
            final(self).spec_config() == old(self).spec_config(),
    {
        if self.far_end_buffer.len() >= FRAME_SIZE {
            let frame = vstd::slice::slice_to_vec(
                vstd::slice::slice_subrange(self.far_end_buffer.as_slice(), 0, FRAME_SIZE),
            );
            let kept = vstd::slice::slice_to_vec(
                vstd::slice::slice_subrange(
                    self.far_end_buffer.as_slice(),
                    FRAME_SIZE,
                    self.far_end_buffer.len(),
                ),
            );
            self.far_end_buffer = kept;
            Some(frame)
        } else {
            self.far_end_buffer = Vec::new();
            None
        }
    }

    /// The bitrate that the encoder runs at.
    pub fn bitrate(&self) -> (b: i32)
        ensures
            b == self@.bitrate,
    {
        self.encoder.bitrate()
    }

    /// What the processor has done so far.
    pub fn stats(&self) -> (s: ProcessorStats)
        ensures
            s == stats_of(
                self@.frames_processed,
                self@.bytes_encoded,
                self@.denoising,
                self@.echo_cancellation,
            ),
    {
        let avg_frame_size = if self.frames_processed > 0 {
            self.bytes_encoded / self.frames_processed
        } else {
            0
        };
        let effective_bitrate = if self.frames_processed > 0 {
            ((self.bytes_encoded as u128) * 400 / (self.frames_processed as u128)) as u64
        } else {
            0
        };
        ProcessorStats {
            frames_processed: self.frames_processed,
            bytes_encoded: self.bytes_encoded,
            avg_frame_size,
            effective_bitrate,
            denoising_enabled: self.denoiser.is_some(),
            echo_cancellation_enabled: self.echo_cancellation,
        }
    }

    /// The configuration, with the flags as they were last set.
    pub closed spec fn spec_config(&self) -> AudioProcessorConfig {
        self.config
    }

    /// The configuration.
    pub fn config(&self) -> (c: &AudioProcessorConfig)
        ensures
            *c == self.spec_config(),
    {
        &self.config
    }
}

/// The four bitrates that the controller chooses among.
#[derive(Debug, Clone, Copy, PartialEq, Eq, Structural)]
pub enum BitrateLevel {
    Low,
    Medium,
    High,
    VeryHigh,
}

impl BitrateLevel {
    /// The bitrate of the level, in bits per second.
    pub open spec fn spec_bitrate(self) -> i32 {
        match self {
            BitrateLevel::Low => 16000,
            BitrateLevel::Medium => 32000,
            BitrateLevel::High => 64000,
            BitrateLevel::VeryHigh => 96000,
        }
    }

    /// The bitrate of the level, in bits per second.
    pub fn bitrate(&self) -> (b: i32)
        ensures
            b == self.spec_bitrate(),
    {
        match self {
            BitrateLevel::Low => 16000,
            BitrateLevel::Medium => 32000,
            BitrateLevel::High => 64000,
            BitrateLevel::VeryHigh => 96000,
        }
    }

    /// The level for a network where `loss_num` of `loss_den` packets are
    /// lost and a round trip takes `rtt_ms` milliseconds: low for a loss
    /// above 15% or a round trip above 200 ms, medium above 8% or 100 ms,
    /// high above 3% or 50 ms, very high otherwise.
    pub open spec fn for_quality(loss_num: int, loss_den: int, rtt_ms: u64) -> BitrateLevel {
        if loss_num * 100 > 15 * loss_den || rtt_ms > 200 {
            BitrateLevel::Low
        } else if loss_num * 100 > 8 * loss_den || rtt_ms > 100 {
            BitrateLevel::Medium
        } else if loss_num * 100 > 3 * loss_den || rtt_ms > 50 {
            BitrateLevel::High
        } else {
            BitrateLevel::VeryHigh
        }
    }

    /// The level for a network that loses `packet_loss` packets in ten
    /// thousand and takes `rtt_ms` milliseconds for a round trip.
    pub fn from_network_quality(packet_loss: u32, rtt_ms: u64) -> (l: Self)
        ensures
            l == Self::for_quality(packet_loss as int, 10_000, rtt_ms),
    {
        if packet_loss > 1500 || rtt_ms > 200 {
            BitrateLevel::Low
        } else if packet_loss > 800 || rtt_ms > 100 {
            BitrateLevel::Medium
        } else if packet_loss > 300 || rtt_ms > 50 {
            BitrateLevel::High
        } else {
            BitrateLevel::VeryHigh
        }
    }
}

/// The sum of the numbers.
pub open spec fn sum_u32(s: Seq<u32>) -> int
    decreases s.len(),
{
    if s.len() == 0 {
        0
    } else {
        sum_u32(s.drop_last()) + s.last()
    }
}

/// The sum of the numbers.
pub open spec fn sum_u64(s: Seq<u64>) -> int
    decreases s.len(),
{
    if s.len() == 0 {
        0
    } else {
        sum_u64(s.drop_last()) + s.last()
    }
}

/// What a window of measurements holds after one more: the old ones and the
/// new one, less the oldest if that is more than ten.
pub open spec fn window_after<T>(window: Seq<T>, value: T) -> Seq<T> {
    if window.len() + 1 > MAX_HISTORY {
        window.push(value).drop_first()
    } else {
        window.push(value)
    }
}

/// Suggests a bitrate from the loss and the round-trip time observed of late.
/// Losses are counted in packets lost of ten thousand.
pub struct AdaptiveBitrateController {
    current_level: BitrateLevel,
    packet_loss_history: Vec<u32>,
    rtt_history: Vec<u64>,
}

impl AdaptiveBitrateController {
    /// The level chosen last.
    pub closed spec fn level(&self) -> BitrateLevel {
        self.current_level
    }

    /// The losses observed of late, oldest first.
    pub closed spec fn losses(&self) -> Seq<u32> {
        self.packet_loss_history@
    }

    /// The round-trip times observed of late, oldest first.
    pub closed spec fn rtts(&self) -> Seq<u64> {
        self.rtt_history@
    }

    /// No more than ten measurements of each kind are remembered.
    pub open spec fn wf(&self) -> bool {
        self.losses().len() <= MAX_HISTORY && self.rtts().len() <= MAX_HISTORY
    }

    /// The level that the measurements call for: that of their mean loss
    /// and their mean round-trip time, the latter rounded down; the very
    /// high level without measurements.
    pub open spec fn suggested(&self) -> BitrateLevel {
        BitrateLevel::for_quality(
            sum_u32(self.losses()),
            10_000 * if self.losses().len() == 0 {
                1int
            } else {
                self.losses().len() as int
            },
            if self.rtts().len() == 0 {
                0
            } else {
                (sum_u64(self.rtts()) / self.rtts().len() as int) as u64
            },
        )
    }

    /// A controller at the medium level without measurements.
    pub fn new() -> (c: Self)
        ensures
            c.wf(),
            c.level() == BitrateLevel::Medium,
            c.losses().len() == 0,
            c.rtts().len() == 0,
    {
        Self {
            current_level: BitrateLevel::Medium,
            packet_loss_history: Vec::new(),
            rtt_history: Vec::new(),
        }
    }

    /// Takes down a measurement: the packets lost of ten thousand and the
    /// round-trip time in milliseconds.
    pub fn update(&mut self, packet_loss: u32, rtt_ms: u64)
        requires
            old(self).wf(),
        ensures
            final(self).wf(),
            final(self).level() == old(self).level(),
            final(self).losses() == window_after(old(self).losses(), packet_loss),
            final(self).rtts() == window_after(old(self).rtts(), rtt_ms),
    {
        self.packet_loss_history.push(packet_loss);
        self.rtt_history.push(rtt_ms);
        if self.packet_loss_history.len() > MAX_HISTORY {
            let _ = self.packet_loss_history.remove(0);
        }
        if self.rtt_history.len() > MAX_HISTORY {
            let _ = self.rtt_history.remove(0);
        }
        assert(self.packet_loss_history@ =~= window_after(old(self).losses(), packet_loss));
        assert(self.rtt_history@ =~= window_after(old(self).rtts(), rtt_ms));
    }

    /// The bitrate that the measurements call for.
    pub fn suggest_bitrate(&self) -> (b: i32)
        requires
            self.wf(),
        ensures
            b == self.suggested().spec_bitrate(),
    {
        let mut loss_sum: u64 = 0;
        let mut i: usize = 0;
        assert(self.packet_loss_history@.subrange(0, 0) =~= Seq::<u32>::empty());
        while i < self.packet_loss_history.len()
            invariant
                i <= self.packet_loss_history@.len() <= MAX_HISTORY,
                loss_sum == sum_u32(self.packet_loss_history@.subrange(0, i as int)),
                loss_sum <= i * 0xffff_ffff,
            decreases self.packet_loss_history@.len() - i,
        {
            assert(self.packet_loss_history@.subrange(0, i + 1).drop_last()
                =~= self.packet_loss_history@.subrange(0, i as int));
            loss_sum = loss_sum + self.packet_loss_history[i] as u64;
            i += 1;
        }
        assert(self.packet_loss_history@.subrange(0, i as int) =~= self.packet_loss_history@);
        let mut rtt_sum: u128 = 0;
        let mut k: usize = 0;
        assert(self.rtt_history@.subrange(0, 0) =~= Seq::<u64>::empty());
        while k < self.rtt_history.len()
            invariant
                k <= self.rtt_history@.len() <= MAX_HISTORY,
                rtt_sum == sum_u64(self.rtt_history@.subrange(0, k as int)),
                rtt_sum <= k * 0xffff_ffff_ffff_ffff,
            decreases self.rtt_history@.len() - k,
        {
            assert(self.rtt_history@.subrange(0, k + 1).drop_last() =~= self.rtt_history@.subrange(
                0,
                k as int,
            ));
            rtt_sum = rtt_sum + self.rtt_history[k] as u128;
            k += 1;
        }
        assert(self.rtt_history@.subrange(0, k as int) =~= self.rtt_history@);
        let n: u64 = if self.packet_loss_history.len() == 0 {
            1
        } else {
            self.packet_loss_history.len() as u64
        };
        let avg_rtt: u64 = if self.rtt_history.len() == 0 {
            0
        } else {
            (rtt_sum / (self.rtt_history.len() as u128)) as u64
        };
        let level = if loss_sum * 100 > 150_000 * n || avg_rtt > 200 {
            BitrateLevel::Low
        } else if loss_sum * 100 > 80_000 * n || avg_rtt > 100 {
            BitrateLevel::Medium
        } else if loss_sum * 100 > 30_000 * n || avg_rtt > 50 {
            BitrateLevel::High
        } else {
            BitrateLevel::VeryHigh
        };
        assert(level == self.suggested()) by {
            assert(15 * (10_000 * n) == 150_000 * n);
            assert(8 * (10_000 * n) == 80_000 * n);
            assert(3 * (10_000 * n) == 30_000 * n);
        }
        level.bitrate()
    }

    /// Whether the measurements call for another bitrate than the current one.
    pub fn should_adjust(&self) -> (b: bool)
        requires
            self.wf(),
        ensures
            b == (self.suggested().spec_bitrate() != self.level().spec_bitrate()),
    {
        self.suggest_bitrate() != self.current_level.bitrate()
    }

    /// The level chosen last.
    pub fn current_level(&self) -> (l: BitrateLevel)
        ensures
            l == self.level(),
    {
        self.current_level
    }

    /// Sets the level; the observations stay.
    pub fn set_level(&mut self, level: BitrateLevel)
        ensures
            final(self).level() == level,
            final(self).losses() == old(self).losses(),
            final(self).rtts() == old(self).rtts(),
    {
        self.current_level = level;
    }
}

impl Default for AdaptiveBitrateController {
    fn default() -> (c: Self)
        ensures
            c.wf(),
            c.level() == BitrateLevel::Medium,
            c.losses().len() == 0,
            c.rtts().len() == 0,
    {
        Self::new()
    }
}

} // verus!
