//! The configuration of the voice codec and the books of its encoder and
//! decoder.

use crate::error::Error;
use crate::text::{chars_of, decimal, push_decimal, string_of};
use vstd::prelude::*;

verus! {

/// Samples per second that the codec runs at.
pub const OPUS_SAMPLE_RATE: u32 = 48000;

/// Number of channels: mono.
pub const OPUS_CHANNELS: u8 = 1;

/// Samples in a frame: twenty milliseconds.
pub const OPUS_FRAME_SIZE: usize = 960;

/// Lowest bitrate, in bits per second.
pub const OPUS_MIN_BITRATE: i32 = 6000;

/// Highest bitrate, in bits per second.
pub const OPUS_MAX_BITRATE: i32 = 510000;

/// Bitrate unless another is given, in bits per second.
pub const OPUS_DEFAULT_BITRATE: i32 = 32000;

/// Most bytes of one encoded frame.
pub const OPUS_MAX_PACKET: usize = 4000;

/// Highest encoder complexity.
pub const OPUS_MAX_COMPLEXITY: u8 = 10;

/// What the encoder is tuned for.
#[derive(Debug, Clone, Copy, PartialEq, Eq, Structural)]
pub enum OpusMode {
    Voip,
    Audio,
    LowDelay,
}

impl Default for OpusMode {
    fn default() -> (m: Self)
        ensures
            m == OpusMode::Voip,
    {
        OpusMode::Voip
    }
}

/// What a codec is configured with.
#[derive(Debug, Clone, Copy, PartialEq, Eq, Structural)]
pub struct OpusConfig {
    pub sample_rate: u32,
    pub channels: u8,
    pub bitrate: i32,
    pub mode: OpusMode,
    pub complexity: u8,
    pub enable_fec: bool,
    pub enable_dtx: bool,
    pub packet_loss_perc: u8,
}

/// A bitrate brought into the range that the codec takes.
pub open spec fn clamped_bitrate(bitrate: i32) -> i32 {
    if bitrate < OPUS_MIN_BITRATE {
        OPUS_MIN_BITRATE
    } else if bitrate > OPUS_MAX_BITRATE {
        OPUS_MAX_BITRATE
    } else {
        bitrate
    }
}

/// A complexity brought into the range that the codec takes.
pub open spec fn clamped_complexity(complexity: u8) -> u8 {
    if complexity > OPUS_MAX_COMPLEXITY {
        OPUS_MAX_COMPLEXITY
    } else {
        complexity
    }
}

fn clamp_bitrate(bitrate: i32) -> (b: i32)
    ensures
        b == clamped_bitrate(bitrate),
{
    if bitrate < OPUS_MIN_BITRATE {
        OPUS_MIN_BITRATE
    } else if bitrate > OPUS_MAX_BITRATE {
        OPUS_MAX_BITRATE
    } else {
        bitrate
    }
}

fn clamp_complexity(complexity: u8) -> (c: u8)
    ensures
        c == clamped_complexity(complexity),
{
    if complexity > OPUS_MAX_COMPLEXITY {
        OPUS_MAX_COMPLEXITY
    } else {
        complexity
    }
}

/// Mono voice at 48 kHz and 32 kbit/s, complexity 5, with forward error
/// correction for an expected loss of ten percent and with discontinuous
/// transmission.
pub open spec fn default_opus_config() -> OpusConfig {
    OpusConfig {
        sample_rate: OPUS_SAMPLE_RATE,
        channels: OPUS_CHANNELS,
        bitrate: OPUS_DEFAULT_BITRATE,
        mode: OpusMode::Voip,
        complexity: 5,
        enable_fec: true,
        enable_dtx: true,
        packet_loss_perc: 10,
    }
}

impl Default for OpusConfig {
    fn default() -> (c: Self)
        ensures
            c == default_opus_config(),
    {
        Self {
            sample_rate: OPUS_SAMPLE_RATE,
            channels: OPUS_CHANNELS,
            bitrate: OPUS_DEFAULT_BITRATE,
            mode: OpusMode::Voip,
            complexity: 5,
            enable_fec: true,
            enable_dtx: true,
            packet_loss_perc: 10,
        }
    }
}

impl OpusConfig {
    /// The same configuration at `bitrate`, brought within the limits.
    pub fn with_bitrate(self, bitrate: i32) -> (c: Self)
        ensures
            c == (OpusConfig { bitrate: clamped_bitrate(bitrate), ..self }),
    {
        let mut c = self;
        c.bitrate = clamp_bitrate(bitrate);
        c
    }

    /// The same configuration in another mode.
    pub fn with_mode(self, mode: OpusMode) -> (c: Self)
        ensures
            c == (OpusConfig { mode, ..self }),
    {
        let mut c = self;
        c.mode = mode;
        c
    }

    /// The same configuration at `complexity`, at most ten.
    pub fn with_complexity(self, complexity: u8) -> (c: Self)
        ensures
            c == (OpusConfig { complexity: clamped_complexity(complexity), ..self }),
    {
        let mut c = self;
        c.complexity = clamp_complexity(complexity);
        c
    }

    /// The same configuration with forward error correction on or off.
    pub fn with_fec(self, enable: bool) -> (c: Self)
        ensures
            c == (OpusConfig { enable_fec: enable, ..self }),
    {
        let mut c = self;
        c.enable_fec = enable;
        c
    }

    /// The same configuration with discontinuous transmission on or off.
    pub fn with_dtx(self, enable: bool) -> (c: Self)
        ensures
            c == (OpusConfig { enable_dtx: enable, ..self }),
    {
        let mut c = self;
        c.enable_dtx = enable;
        c
    }
}

/// One frame as the encoder gave it.
#[derive(Debug, Clone)]
pub struct EncodedFrame {
    pub data: Vec<u8>,
    pub sequence: u64,
    pub timestamp: u64,
    pub bitrate: i32,
}

/// Reason of the error returned for a frame of `len` samples, the wrong length.
pub open spec fn reason_invalid_frame_size(len: usize) -> Seq<char> {
    "Invalid frame size: expected 960, got "@ + decimal(len as nat)
}

fn invalid_frame_size(len: usize) -> (e: Error)
    ensures
        e.is_audio(reason_invalid_frame_size(len)),
{
    let mut reason = chars_of("Invalid frame size: expected 960, got ");
    push_decimal(&mut reason, len as u64);
    Error::Audio(string_of(reason.as_slice()))
}

/// The books of an encoder: its configuration and the frames it has
/// encoded. The codec itself is driven by the caller, frame by frame.
pub struct OpusEncoder {
    config: OpusConfig,
    frame_count: u64,
}

impl OpusEncoder {
    /// The configuration.
    pub closed spec fn spec_config(&self) -> OpusConfig {
        self.config
    }

    /// Number of frames encoded.
    pub closed spec fn frames(&self) -> u64 {
        self.frame_count
    }

    /// The books of an encoder for `config`. Opening them never fails;
    /// whether the codec runs with the configuration is for the codec to
    /// say.
    pub fn new(config: OpusConfig) -> (r: Result<Self, Error>)
        ensures
            r matches Ok(e) && e.spec_config() == config && e.frames() == 0,
    {
        Ok(Self { config, frame_count: 0 })
    }

    /// Whether a frame of `len` samples may be encoded: it must have 960.
    pub fn check_frame_size(&self, len: usize) -> (r: Result<(), Error>)
        ensures
            match r {
                Ok(()) => len == OPUS_FRAME_SIZE,
                Err(e) => len != OPUS_FRAME_SIZE && e.is_audio(reason_invalid_frame_size(len)),
            },
    {
        if len != OPUS_FRAME_SIZE {
            Err(invalid_frame_size(len))
        } else {
            Ok(())
        }
    }

    /// Counts a frame that the codec has encoded to `data`, and wraps it:
    /// its sequence number is the count of frames, its timestamp the
    /// sequence number times 960.
    pub fn frame_encoded(&mut self, data: Vec<u8>) -> (frame: EncodedFrame)
        requires
            old(self).frames() < u64::MAX / 960,
        ensures
            final(self).spec_config() == old(self).spec_config(),
            final(self).frames() == old(self).frames() + 1,
            frame == (EncodedFrame {
                data,
                sequence: (old(self).frames() + 1) as u64,
                timestamp: ((old(self).frames() + 1) * 960) as u64,
                bitrate: old(self).spec_config().bitrate,
            }),
    {
        self.frame_count = self.frame_count + 1;
        EncodedFrame {
            data,
            sequence: self.frame_count,
            timestamp: self.frame_count * 960,
            bitrate: self.config.bitrate,
        }
    }

    /// Brings `bitrate` into range and takes it down; gives the bitrate taken.
    pub fn set_bitrate(&mut self, bitrate: i32) -> (b: i32)
        ensures
            b == clamped_bitrate(bitrate),
            final(self).spec_config() == (OpusConfig { bitrate: b, ..old(self).spec_config() }),
            final(self).frames() == old(self).frames(),
    {
        let b = clamp_bitrate(bitrate);
        self.config.bitrate = b;
        b
    }

    /// Brings `complexity` into range and takes it down; gives the
    /// complexity taken.
    pub fn set_complexity(&mut self, complexity: u8) -> (c: u8)
        ensures
            c == clamped_complexity(complexity),
            final(self).spec_config() == (OpusConfig { complexity: c, ..old(self).spec_config() }),
            final(self).frames() == old(self).frames(),
    {
        let c = clamp_complexity(complexity);
        self.config.complexity = c;
        c
    }

    /// The bitrate that the encoder runs at.
    pub fn bitrate(&self) -> (b: i32)
        ensures
            b == self.spec_config().bitrate,
    {
        self.config.bitrate
    }

    /// Number of frames encoded.
    pub fn frame_count(&self) -> (n: u64)
        ensures
            n == self.frames(),
    {
        self.frame_count
    }

    /// The configuration.
    pub fn config(&self) -> (c: &OpusConfig)
        ensures
            *c == self.spec_config(),
    {
        &self.config
    }
}

/// The books of a decoder: its format and the frames it has decoded.
pub struct OpusDecoder {
    sample_rate: u32,
    channels: u8,
    frame_count: u64,
}

impl OpusDecoder {
    /// Samples per second that the decoder runs at.
    pub closed spec fn rate(&self) -> u32 {
        self.sample_rate
    }

    /// Number of channels that the decoder gives out.
    pub closed spec fn spec_channels(&self) -> u8 {
        self.channels
    }

    /// Number of frames decoded.
    pub closed spec fn frames(&self) -> u64 {
        self.frame_count
    }

    /// The books of a decoder. Opening them never fails; whether the codec
    /// runs at the sample rate is for the codec to say.
    pub fn new(sample_rate: u32, channels: u8) -> (r: Result<Self, Error>)
        ensures
            r matches Ok(d) && d.rate() == sample_rate && d.spec_channels() == channels
                && d.frames() == 0,
    {
        Ok(Self { sample_rate, channels, frame_count: 0 })
    }

    /// Whether the decoder decodes to one channel: it does for a channel
    /// count of one, and to two channels for any other.
    pub fn is_mono(&self) -> (b: bool)
        ensures
            b == (self.spec_channels() == 1),
    {
        self.channels == 1
    }

    /// Samples to make room for before a frame is decoded: twenty
    /// milliseconds on every channel.
    pub fn output_capacity(&self) -> (n: u64)
        ensures
            n == (self.rate() / 100 * 2) * self.spec_channels(),
    {
        assert((self.sample_rate / 100 * 2) * self.channels <= 0xffff_ffff * 255) by (nonlinear_arith)
            requires
                self.sample_rate / 100 * 2 <= 0xffff_ffff,
                self.channels <= 255,
        ;
        (self.sample_rate / 100 * 2) as u64 * (self.channels as u64)
    }

    /// Samples to keep of what the codec decoded: the samples per channel
    /// that it reports, on every channel.
    pub fn decoded_len(&self, samples_per_channel: usize) -> (n: usize)
        requires
            samples_per_channel * self.spec_channels() <= usize::MAX,
        ensures
            n == samples_per_channel * self.spec_channels(),
    {
        samples_per_channel * (self.channels as usize)
    }

    /// Counts a frame that the codec has decoded or concealed. A frame
    /// recovered by forward error correction from no input at all does not
    /// count.
    pub fn frame_decoded(&mut self, counts: bool)
        requires
            old(self).frames() < u64::MAX,
        ensures
            final(self).rate() == old(self).rate(),
            final(self).spec_channels() == old(self).spec_channels(),
            final(self).frames() == if counts {
                (old(self).frames() + 1) as u64
            } else {
                old(self).frames()
            },
    {
        if counts {
            self.frame_count = self.frame_count + 1;
        }
    }

    /// Samples per second that the decoder runs at.
    pub fn sample_rate(&self) -> (r: u32)
        ensures
            r == self.rate(),
    {
        self.sample_rate
    }

    /// Number of channels that the decoder gives out.
    pub fn channels(&self) -> (c: u8)
        ensures
            c == self.spec_channels(),
    {
        self.channels
    }

    /// Number of frames decoded.
    pub fn frame_count(&self) -> (n: u64)
        ensures
            n == self.frames(),
    {
        self.frame_count
    }
}

} // verus!
