//! The packets and control messages of the voice protocol and their wire
//! forms.

use crate::crypto::EncryptedMessage;
use crate::error::Error;
use crate::time::wall_clock_ms;
use crate::wire::{
    enc_bool, enc_bytes, enc_opt_str, enc_str, enc_words, lemma_take_bool,
    lemma_take_bytes, lemma_take_fixed, lemma_take_opt_str, lemma_take_str, lemma_take_u16,
    lemma_take_u32, lemma_take_u64, lemma_take_words, put_bool, put_bytes, put_opt_str, put_str,
    put_u16, put_u32, put_u64, put_words, take_bool, take_bytes, take_fixed, take_opt_str,
    take_str, take_u16, take_u32, take_u64, take_words, Reader,
};
use vstd::bytes::{spec_u16_to_le_bytes, spec_u32_to_le_bytes, spec_u64_to_le_bytes};
use vstd::prelude::*;
use vstd::utf8::encode_utf8;

pub use crate::jitter::{JitterBuffer, AUDIO_FRAME_SIZE};

verus! {

/// Name of the protocol that carries audio.
pub const PROTOCOL_NAME: &'static str = "/agora/audio/1.0.0";

/// Name of the protocol that carries control messages.
pub const PROTOCOL_CONTROL: &'static str = "/agora/control/1.0.0";

/// Most bytes of one frame on the wire.
pub const MAX_FRAME_SIZE: usize = 4096;

/// Reason of the error returned for bytes that are no wire form.
pub open spec fn reason_invalid_data() -> Seq<char> {
    "invalid data"@
}

/// One frame of audio on its way between peers. The samples are carried as
/// the bit patterns of 32-bit floating-point numbers; the timestamp is in
/// milliseconds since the Unix epoch.
#[derive(Debug, Clone)]
pub struct AudioPacket {
    pub sequence: u64,
    pub timestamp: u64,
    pub peer_id: String,
    pub frame: Vec<u32>,
    pub sample_rate: u32,
    pub channels: u16,
}

/// An audio packet as plain values.
pub struct AudioPacketView {
    pub sequence: u64,
    pub timestamp: u64,
    pub peer_id: Seq<char>,
    pub frame: Seq<u32>,
    pub sample_rate: u32,
    pub channels: u16,
}

impl View for AudioPacket {
    type V = AudioPacketView;

    open spec fn view(&self) -> AudioPacketView {
        AudioPacketView {
            sequence: self.sequence,
            timestamp: self.timestamp,
            peer_id: self.peer_id@,
            frame: self.frame@,
            sample_rate: self.sample_rate,
            channels: self.channels,
        }
    }
}

impl AudioPacketView {
    /// The wire form: sequence and timestamp as 64 bits each, the peer id as
    /// a text, the samples as a run of 32-bit words, the sample rate as 32
    /// bits and the channels as 16 bits, all in little-endian order.
    pub open spec fn wire(self) -> Seq<u8> {
        spec_u64_to_le_bytes(self.sequence) + spec_u64_to_le_bytes(self.timestamp) + enc_str(
            self.peer_id,
        ) + enc_words(self.frame) + spec_u32_to_le_bytes(self.sample_rate) + spec_u16_to_le_bytes(
            self.channels,
        )
    }

    /// The packet at the head of `d`, if there is one. What follows it is ignored.
    pub open spec fn parse(d: Seq<u8>) -> Option<AudioPacketView> {
        match take_u64(d) {
            Some((sequence, d1)) => match take_u64(d1) {
                Some((timestamp, d2)) => match take_str(d2) {
                    Some((peer_id, d3)) => match take_words(d3) {
                        Some((frame, d4)) => match take_u32(d4) {
                            Some((sample_rate, d5)) => match take_u16(d5) {
                                Some((channels, _)) => Some(
                                    AudioPacketView {
                                        sequence,
                                        timestamp,
                                        peer_id,
                                        frame,
                                        sample_rate,
                                        channels,
                                    },
                                ),
                                None => None,
                            },
                            None => None,
                        },
                        None => None,
                    },
                    None => None,
                },
                None => None,
            },
            None => None,
        }
    }
}

/// Reading the wire form of a packet gives the packet back, whatever follows it.
pub proof fn lemma_audio_packet_round_trip(p: AudioPacketView, tail: Seq<u8>)
    requires
        encode_utf8(p.peer_id).len() <= u64::MAX,
        p.frame.len() * 4 <= u64::MAX,
    ensures
        AudioPacketView::parse(p.wire() + tail) == Some(p),
{
    let t5 = spec_u16_to_le_bytes(p.channels) + tail;
    let t4 = spec_u32_to_le_bytes(p.sample_rate) + t5;
    let t3 = enc_words(p.frame) + t4;
    let t2 = enc_str(p.peer_id) + t3;
    let t1 = spec_u64_to_le_bytes(p.timestamp) + t2;
    assert(p.wire() + tail =~= spec_u64_to_le_bytes(p.sequence) + t1);
    lemma_take_u64(p.sequence, t1);
    lemma_take_u64(p.timestamp, t2);
    lemma_take_str(p.peer_id, t3);
    lemma_take_words(p.frame, t4);
    lemma_take_u32(p.sample_rate, t5);
    lemma_take_u16(p.channels, tail);
}

impl AudioPacket {
    /// A mono packet at 48 kHz stamped with `timestamp`.
    pub fn new_at(sequence: u64, peer_id: String, frame: Vec<u32>, timestamp: u64) -> (p: Self)
        ensures
            p@ == (AudioPacketView {
                sequence,
                timestamp,
                peer_id: peer_id@,
                frame: frame@,
                sample_rate: 48000,
                channels: 1,
            }),
    {
        Self { sequence, timestamp, peer_id, frame, sample_rate: 48000, channels: 1 }
    }

    /// A mono packet at 48 kHz stamped with the current clock reading.
    pub fn new(sequence: u64, peer_id: String, frame: Vec<u32>) -> (p: Self)
        ensures
            p@ == (AudioPacketView {
                sequence,
                timestamp: p.timestamp,
                peer_id: peer_id@,
                frame: frame@,
                sample_rate: 48000,
                channels: 1,
            }),
    {
        Self::new_at(sequence, peer_id, frame, wall_clock_ms())
    }

    /// Writes the wire form.
    pub fn encode(&self) -> (r: Result<Vec<u8>, Error>)
        ensures
            r matches Ok(bytes) && bytes@ == self@.wire(),
    {
        let mut out: Vec<u8> = Vec::new();
        put_u64(&mut out, self.sequence);
        put_u64(&mut out, self.timestamp);
        put_str(&mut out, self.peer_id.as_str());
        put_words(&mut out, self.frame.as_slice());
        put_u32(&mut out, self.sample_rate);
        put_u16(&mut out, self.channels);
        assert(out@ =~= self@.wire());
        Ok(out)
    }

    /// Reads the packet at the head of `data`.
    pub fn decode(data: &[u8]) -> (r: Result<Self, Error>)
        ensures
            match r {
                Ok(p) => AudioPacketView::parse(data@) == Some(p@),
                Err(e) => AudioPacketView::parse(data@) is None && e.is_io(reason_invalid_data()),
            },
    {
        let mut reader = Reader::new(data);
        let sequence = reader.u64();
        let timestamp = if sequence.is_some() { reader.u64() } else { None };
        let peer_id = if timestamp.is_some() { reader.string() } else { None };
        let frame = if peer_id.is_some() { reader.words() } else { None };
        let sample_rate = if frame.is_some() { reader.u32() } else { None };
        let channels = if sample_rate.is_some() { reader.u16() } else { None };
        match (sequence, timestamp, peer_id, frame, sample_rate, channels) {
            (Some(sequence), Some(timestamp), Some(peer_id), Some(frame), Some(sample_rate), Some(channels)) => Ok(
                Self { sequence, timestamp, peer_id, frame, sample_rate, channels },
            ),
            _ => Err(Error::io("invalid data")),
        }
    }
}

/// A sealed frame of audio on its way between peers.
#[derive(Debug, Clone)]
pub struct EncryptedAudioPacket {
    pub sequence: u64,
    pub timestamp: u64,
    pub peer_id: String,
    pub encrypted_frame: Vec<u8>,
    pub nonce: [u8; 12],
    pub key_id: u64,
}

/// A sealed audio packet as plain values.
pub struct EncryptedAudioPacketView {
    pub sequence: u64,
    pub timestamp: u64,
    pub peer_id: Seq<char>,
    pub encrypted_frame: Seq<u8>,
    pub nonce: Seq<u8>,
    pub key_id: u64,
}

impl View for EncryptedAudioPacket {
    type V = EncryptedAudioPacketView;

    open spec fn view(&self) -> EncryptedAudioPacketView {
        EncryptedAudioPacketView {
            sequence: self.sequence,
            timestamp: self.timestamp,
            peer_id: self.peer_id@,
            encrypted_frame: self.encrypted_frame@,
            nonce: self.nonce@,
            key_id: self.key_id,
        }
    }
}

impl EncryptedAudioPacketView {
    /// The wire form: sequence and timestamp as 64 bits each, the peer id as
    /// a text, the sealed frame as a run of bytes, the twelve bytes of the
    /// nonce, and the key number as 64 bits, all in little-endian order.
    pub open spec fn wire(self) -> Seq<u8> {
        spec_u64_to_le_bytes(self.sequence) + spec_u64_to_le_bytes(self.timestamp) + enc_str(
            self.peer_id,
        ) + enc_bytes(self.encrypted_frame) + self.nonce + spec_u64_to_le_bytes(self.key_id)
    }

    /// The packet at the head of `d`, if there is one. What follows it is ignored.
    pub open spec fn parse(d: Seq<u8>) -> Option<EncryptedAudioPacketView> {
        match take_u64(d) {
            Some((sequence, d1)) => match take_u64(d1) {
                Some((timestamp, d2)) => match take_str(d2) {
                    Some((peer_id, d3)) => match take_bytes(d3) {
                        Some((encrypted_frame, d4)) => match take_fixed(d4, 12) {
                            Some((nonce, d5)) => match take_u64(d5) {
                                Some((key_id, _)) => Some(
                                    EncryptedAudioPacketView {
                                        sequence,
                                        timestamp,
                                        peer_id,
                                        encrypted_frame,
                                        nonce,
                                        key_id,
                                    },
                                ),
                                None => None,
                            },
                            None => None,
                        },
                        None => None,
                    },
                    None => None,
                },
                None => None,
            },
            None => None,
        }
    }
}

/// Reading the wire form of a sealed packet gives the packet back, whatever
/// follows it.
pub proof fn lemma_encrypted_audio_packet_round_trip(p: EncryptedAudioPacketView, tail: Seq<u8>)
    requires
        encode_utf8(p.peer_id).len() <= u64::MAX,
        p.encrypted_frame.len() <= u64::MAX,
        p.nonce.len() == 12,
    ensures
        EncryptedAudioPacketView::parse(p.wire() + tail) == Some(p),
{
    let t5 = spec_u64_to_le_bytes(p.key_id) + tail;
    let t4 = p.nonce + t5;
    let t3 = enc_bytes(p.encrypted_frame) + t4;
    let t2 = enc_str(p.peer_id) + t3;
    let t1 = spec_u64_to_le_bytes(p.timestamp) + t2;
    assert(p.wire() + tail =~= spec_u64_to_le_bytes(p.sequence) + t1);
    lemma_take_u64(p.sequence, t1);
    lemma_take_u64(p.timestamp, t2);
    lemma_take_str(p.peer_id, t3);
    lemma_take_bytes(p.encrypted_frame, t4);
    lemma_take_fixed(p.nonce, t5);
    lemma_take_u64(p.key_id, tail);
}

fn nonce_from(bytes: &[u8]) -> (nonce: [u8; 12])
    requires
        bytes@.len() == 12,
    ensures
        nonce@ == bytes@,
{
    let mut nonce = [0u8; 12];
    let mut i: usize = 0;
    while i < 12
        invariant
            i <= 12,
            bytes@.len() == 12,
            forall|j: int| 0 <= j < i ==> nonce@[j] == bytes@[j],
        decreases 12 - i,
    {
        nonce[i] = bytes[i];
        i += 1;
    }
    assert(nonce@ =~= bytes@);
    nonce
}

fn copy_bytes(bytes: &Vec<u8>) -> (copy: Vec<u8>)
    ensures
        copy@ == bytes@,
{
    vstd::slice::slice_to_vec(bytes.as_slice())
}

impl EncryptedAudioPacket {
    /// A sealed packet stamped with `timestamp`.
    pub fn new_at(
        sequence: u64,
        peer_id: String,
        encrypted_frame: Vec<u8>,
        nonce: [u8; 12],
        key_id: u64,
        timestamp: u64,
    ) -> (p: Self)
        ensures
            p == (EncryptedAudioPacket { sequence, timestamp, peer_id, encrypted_frame, nonce, key_id }),
    {
        Self { sequence, timestamp, peer_id, encrypted_frame, nonce, key_id }
    }

    /// A sealed packet stamped with the current clock reading.
    pub fn new(
        sequence: u64,
        peer_id: String,
        encrypted_frame: Vec<u8>,
        nonce: [u8; 12],
        key_id: u64,
    ) -> (p: Self)
        ensures
            p == (EncryptedAudioPacket {
                sequence,
                timestamp: p.timestamp,
                peer_id,
                encrypted_frame,
                nonce,
                key_id,
            }),
    {
        Self::new_at(sequence, peer_id, encrypted_frame, nonce, key_id, wall_clock_ms())
    }

    /// The sealed packet that carries `encrypted_msg`, stamped with the
    /// current clock reading.
    pub fn from_encrypted_message(
        sequence: u64,
        peer_id: String,
        encrypted_msg: EncryptedMessage,
        key_id: u64,
    ) -> (p: Self)
        ensures
            p == (EncryptedAudioPacket {
                sequence,
                timestamp: p.timestamp,
                peer_id,
                encrypted_frame: encrypted_msg.ciphertext,
                nonce: encrypted_msg.nonce,
                key_id,
            }),
    {
        Self::new_at(
            sequence,
            peer_id,
            encrypted_msg.ciphertext,
            encrypted_msg.nonce,
            key_id,
            wall_clock_ms(),
        )
    }

    /// The sealed message that the packet carries.
    pub fn to_encrypted_message(&self) -> (m: EncryptedMessage)
        ensures
            m.nonce == self.nonce,
            m.ciphertext@ == self.encrypted_frame@,
    {
        EncryptedMessage::new(self.nonce, copy_bytes(&self.encrypted_frame))
    }

    /// Writes the wire form.
    pub fn encode(&self) -> (r: Result<Vec<u8>, Error>)
        ensures
            r matches Ok(bytes) && bytes@ == self@.wire(),
    {
        let mut out: Vec<u8> = Vec::new();
        put_u64(&mut out, self.sequence);
        put_u64(&mut out, self.timestamp);
        put_str(&mut out, self.peer_id.as_str());
        put_bytes(&mut out, self.encrypted_frame.as_slice());
        out.extend_from_slice(self.nonce.as_slice());
        put_u64(&mut out, self.key_id);
        assert(out@ =~= self@.wire());
        Ok(out)
    }

    /// Reads the packet at the head of `data`.
    pub fn decode(data: &[u8]) -> (r: Result<Self, Error>)
        ensures
            match r {
                Ok(p) => EncryptedAudioPacketView::parse(data@) == Some(p@),
                Err(e) => EncryptedAudioPacketView::parse(data@) is None && e.is_io(
                    reason_invalid_data(),
                ),
            },
    {
        let mut reader = Reader::new(data);
        let sequence = reader.u64();
        let timestamp = if sequence.is_some() { reader.u64() } else { None };
        let peer_id = if timestamp.is_some() { reader.string() } else { None };
        let encrypted_frame = if peer_id.is_some() { reader.bytes() } else { None };
        let nonce = if encrypted_frame.is_some() { reader.fixed(12) } else { None };
        let key_id = if nonce.is_some() { reader.u64() } else { None };
        match (sequence, timestamp, peer_id, encrypted_frame, nonce, key_id) {
            (Some(sequence), Some(timestamp), Some(peer_id), Some(encrypted_frame), Some(nonce), Some(key_id)) => Ok(
                Self {
                    sequence,
                    timestamp,
                    peer_id,
                    encrypted_frame,
                    nonce: nonce_from(nonce),
                    key_id,
                },
            ),
            _ => Err(Error::io("invalid data")),
        }
    }
}

/// What one participant looks like to the others.
#[derive(Debug, Clone)]
pub struct ParticipantInfo {
    pub peer_id: String,
    pub display_name: Option<String>,
    pub is_mixer: bool,
    pub is_muted: bool,
    pub latency_ms: u32,
}

/// A participant info as plain values.
pub struct ParticipantInfoView {
    pub peer_id: Seq<char>,
    pub display_name: Option<Seq<char>>,
    pub is_mixer: bool,
    pub is_muted: bool,
    pub latency_ms: u32,
}

/// An optional string as plain values.
pub open spec fn opt_view(o: Option<String>) -> Option<Seq<char>> {
    match o {
        Some(s) => Some(s@),
        None => None,
    }
}

impl View for ParticipantInfo {
    type V = ParticipantInfoView;

    open spec fn view(&self) -> ParticipantInfoView {
        ParticipantInfoView {
            peer_id: self.peer_id@,
            display_name: opt_view(self.display_name),
            is_mixer: self.is_mixer,
            is_muted: self.is_muted,
            latency_ms: self.latency_ms,
        }
    }
}

/// What a control message is about.
#[derive(Debug, Clone)]
pub enum ControlMessageType {
    JoinRoom { room_id: String },
    LeaveRoom { room_id: String },
    UpdateInfo { display_name: String },
    MuteChanged { is_muted: bool },
    ParticipantList { participants: Vec<ParticipantInfo> },
    Ping,
    Pong,
}

/// The subject of a control message as plain values.
pub enum ControlKind {
    JoinRoom { room_id: Seq<char> },
    LeaveRoom { room_id: Seq<char> },
    UpdateInfo { display_name: Seq<char> },
    MuteChanged { is_muted: bool },
    ParticipantList { participants: Seq<ParticipantInfoView> },
    Ping,
    Pong,
}

/// Participant infos as plain values.
pub open spec fn infos_view(infos: Seq<ParticipantInfo>) -> Seq<ParticipantInfoView> {
    Seq::new(infos.len(), |i: int| infos[i]@)
}

impl View for ControlMessageType {
    type V = ControlKind;

    open spec fn view(&self) -> ControlKind {
        match *self {
            ControlMessageType::JoinRoom { room_id } => ControlKind::JoinRoom { room_id: room_id@ },
            ControlMessageType::LeaveRoom { room_id } => ControlKind::LeaveRoom { room_id: room_id@ },
            ControlMessageType::UpdateInfo { display_name } => ControlKind::UpdateInfo {
                display_name: display_name@,
            },
            ControlMessageType::MuteChanged { is_muted } => ControlKind::MuteChanged { is_muted },
            ControlMessageType::ParticipantList { participants } => ControlKind::ParticipantList {
                participants: infos_view(participants@),
            },
            ControlMessageType::Ping => ControlKind::Ping,
            ControlMessageType::Pong => ControlKind::Pong,
        }
    }
}

/// A message of the control protocol. The timestamp is in milliseconds since
/// the Unix epoch.
#[derive(Debug, Clone)]
pub struct ControlMessage {
    pub message_type: ControlMessageType,
    pub peer_id: String,
    pub room_id: Option<String>,
    pub display_name: Option<String>,
    pub timestamp: u64,
}

/// A control message as plain values.
pub struct ControlMessageView {
    pub message_type: ControlKind,
    pub peer_id: Seq<char>,
    pub room_id: Option<Seq<char>>,
    pub display_name: Option<Seq<char>>,
    pub timestamp: u64,
}

impl View for ControlMessage {
    type V = ControlMessageView;

    open spec fn view(&self) -> ControlMessageView {
        ControlMessageView {
            message_type: self.message_type@,
            peer_id: self.peer_id@,
            room_id: opt_view(self.room_id),
            display_name: opt_view(self.display_name),
            timestamp: self.timestamp,
        }
    }
}

impl ParticipantInfoView {
    /// The wire form: the peer id, the optional display name, the two flags,
    /// and the latency as 32 bits.
    pub open spec fn wire(self) -> Seq<u8> {
        enc_str(self.peer_id) + enc_opt_str(self.display_name) + enc_bool(self.is_mixer) + enc_bool(
            self.is_muted,
        ) + spec_u32_to_le_bytes(self.latency_ms)
    }

    /// The info at the head of `d` and what follows it.
    pub open spec fn take(d: Seq<u8>) -> Option<(ParticipantInfoView, Seq<u8>)> {
        match take_str(d) {
            Some((peer_id, d1)) => match take_opt_str(d1) {
                Some((display_name, d2)) => match take_bool(d2) {
                    Some((is_mixer, d3)) => match take_bool(d3) {
                        Some((is_muted, d4)) => match take_u32(d4) {
                            Some((latency_ms, d5)) => Some(
                                (
                                    ParticipantInfoView {
                                        peer_id,
                                        display_name,
                                        is_mixer,
                                        is_muted,
                                        latency_ms,
                                    },
                                    d5,
                                ),
                            ),
                            None => None,
                        },
                        None => None,
                    },
                    None => None,
                },
                None => None,
            },
            None => None,
        }
    }

    /// Whether the texts of the info are short enough for their lengths to
    /// be written.
    pub open spec fn fits(self) -> bool {
        &&& encode_utf8(self.peer_id).len() <= u64::MAX
        &&& self.display_name matches Some(n) ==> encode_utf8(n).len() <= u64::MAX
    }
}

/// The wire forms of the infos, one after the other.
pub open spec fn infos_wire(infos: Seq<ParticipantInfoView>) -> Seq<u8>
    decreases infos.len(),
{
    if infos.len() == 0 {
        Seq::empty()
    } else {
        infos[0].wire() + infos_wire(infos.drop_first())
    }
}

/// The `n` infos at the head of `d` and what follows them.
pub open spec fn take_infos(d: Seq<u8>, n: nat) -> Option<(Seq<ParticipantInfoView>, Seq<u8>)>
    decreases n,
{
    if n == 0 {
        Some((Seq::empty(), d))
    } else {
        match ParticipantInfoView::take(d) {
            Some((first, d1)) => match take_infos(d1, (n - 1) as nat) {
                Some((others, d2)) => Some((seq![first] + others, d2)),
                None => None,
            },
            None => None,
        }
    }
}

impl ControlKind {
    /// The wire form: the number of the kind as 32 bits, counted from zero in
    /// the order of declaration, then what the kind carries.
    pub open spec fn wire(self) -> Seq<u8> {
        match self {
            ControlKind::JoinRoom { room_id } => spec_u32_to_le_bytes(0) + enc_str(room_id),
            ControlKind::LeaveRoom { room_id } => spec_u32_to_le_bytes(1) + enc_str(room_id),
            ControlKind::UpdateInfo { display_name } => spec_u32_to_le_bytes(2) + enc_str(display_name),
            ControlKind::MuteChanged { is_muted } => spec_u32_to_le_bytes(3) + enc_bool(is_muted),
            ControlKind::ParticipantList { participants } => spec_u32_to_le_bytes(4)
                + spec_u64_to_le_bytes(participants.len() as u64) + infos_wire(participants),
            ControlKind::Ping => spec_u32_to_le_bytes(5),
            ControlKind::Pong => spec_u32_to_le_bytes(6),
        }
    }

    /// The kind at the head of `d` and what follows it.
    pub open spec fn take(d: Seq<u8>) -> Option<(ControlKind, Seq<u8>)> {
        match take_u32(d) {
            Some((tag, d1)) => if tag == 0 {
                match take_str(d1) {
                    Some((room_id, d2)) => Some((ControlKind::JoinRoom { room_id }, d2)),
                    None => None,
                }
            } else if tag == 1 {
                match take_str(d1) {
                    Some((room_id, d2)) => Some((ControlKind::LeaveRoom { room_id }, d2)),
                    None => None,
                }
            } else if tag == 2 {
                match take_str(d1) {
                    Some((display_name, d2)) => Some((ControlKind::UpdateInfo { display_name }, d2)),
                    None => None,
                }
            } else if tag == 3 {
                match take_bool(d1) {
                    Some((is_muted, d2)) => Some((ControlKind::MuteChanged { is_muted }, d2)),
                    None => None,
                }
            } else if tag == 4 {
                match take_u64(d1) {
                    Some((n, d2)) => match take_infos(d2, n as nat) {
                        Some((participants, d3)) => Some(
                            (ControlKind::ParticipantList { participants }, d3),
                        ),
                        None => None,
                    },
                    None => None,
                }
            } else if tag == 5 {
                Some((ControlKind::Ping, d1))
            } else if tag == 6 {
                Some((ControlKind::Pong, d1))
            } else {
                None
            },
            None => None,
        }
    }

    /// Whether the texts of the kind are short enough for their lengths to
    /// be written.
    pub open spec fn fits(self) -> bool {
        match self {
            ControlKind::JoinRoom { room_id } => encode_utf8(room_id).len() <= u64::MAX,
            ControlKind::LeaveRoom { room_id } => encode_utf8(room_id).len() <= u64::MAX,
            ControlKind::UpdateInfo { display_name } => encode_utf8(display_name).len() <= u64::MAX,
            ControlKind::ParticipantList { participants } => participants.len() <= u64::MAX
                && forall|i: int| 0 <= i < participants.len() ==> (#[trigger] participants[i]).fits(),
            _ => true,
        }
    }
}

impl ControlMessageView {
    /// The wire form: the kind, the peer id, the optional room id, the
    /// optional display name, and the timestamp as 64 bits.
    pub open spec fn wire(self) -> Seq<u8> {
        self.message_type.wire() + enc_str(self.peer_id) + enc_opt_str(self.room_id) + enc_opt_str(
            self.display_name,
        ) + spec_u64_to_le_bytes(self.timestamp)
    }

    /// The message at the head of `d`, if there is one. What follows it is ignored.
    pub open spec fn parse(d: Seq<u8>) -> Option<ControlMessageView> {
        match ControlKind::take(d) {
            Some((message_type, d1)) => match take_str(d1) {
                Some((peer_id, d2)) => match take_opt_str(d2) {
                    Some((room_id, d3)) => match take_opt_str(d3) {
                        Some((display_name, d4)) => match take_u64(d4) {
                            Some((timestamp, _)) => Some(
                                ControlMessageView {
                                    message_type,
                                    peer_id,
                                    room_id,
                                    display_name,
                                    timestamp,
                                },
                            ),
                            None => None,
                        },
                        None => None,
                    },
                    None => None,
                },
                None => None,
            },
            None => None,
        }
    }

    /// Whether the texts of the message are short enough for their lengths
    /// to be written.
    pub open spec fn fits(self) -> bool {
        &&& self.message_type.fits()
        &&& encode_utf8(self.peer_id).len() <= u64::MAX
        &&& self.room_id matches Some(r) ==> encode_utf8(r).len() <= u64::MAX
        &&& self.display_name matches Some(n) ==> encode_utf8(n).len() <= u64::MAX
    }
}

/// Reading what was written gives it back: a participant info.
pub proof fn lemma_info_round_trip(i: ParticipantInfoView, tail: Seq<u8>)
    requires
        i.fits(),
    ensures
        ParticipantInfoView::take(i.wire() + tail) == Some((i, tail)),
{
    let t4 = spec_u32_to_le_bytes(i.latency_ms) + tail;
    let t3 = enc_bool(i.is_muted) + t4;
    let t2 = enc_bool(i.is_mixer) + t3;
    let t1 = enc_opt_str(i.display_name) + t2;
    assert(i.wire() + tail =~= enc_str(i.peer_id) + t1);
    lemma_take_str(i.peer_id, t1);
    lemma_take_opt_str(i.display_name, t2);
    lemma_take_bool(i.is_mixer, t3);
    lemma_take_bool(i.is_muted, t4);
    lemma_take_u32(i.latency_ms, tail);
}

/// Reading what was written gives it back: a run of participant infos.
pub proof fn lemma_infos_round_trip(infos: Seq<ParticipantInfoView>, tail: Seq<u8>)
    requires
        forall|i: int| 0 <= i < infos.len() ==> (#[trigger] infos[i]).fits(),
    ensures
        take_infos(infos_wire(infos) + tail, infos.len()) == Some((infos, tail)),
    decreases infos.len(),
{
    if infos.len() == 0 {
        assert(infos_wire(infos) + tail =~= tail);
        assert(infos =~= Seq::empty());
    } else {
        let first = infos[0];
        let rest = infos.drop_first();
        let behind_first = infos_wire(rest) + tail;
        assert(first.fits());
        assert(infos_wire(infos) + tail =~= first.wire() + behind_first);
        assert(ParticipantInfoView::take(infos_wire(infos) + tail) == Some((first, behind_first))) by {
            lemma_info_round_trip(first, behind_first);
        }
        assert forall|i: int| 0 <= i < rest.len() implies (#[trigger] rest[i]).fits() by {
            assert(rest[i] == infos[i + 1]);
        }
        assert(take_infos(behind_first, rest.len()) == Some((rest, tail))) by {
            lemma_infos_round_trip(rest, tail);
        }
        assert(seq![first] + rest =~= infos);
        assert((infos.len() - 1) as nat == rest.len());
    }
}

/// Reading what was written gives it back: the subject of a control message.
pub proof fn lemma_kind_round_trip(k: ControlKind, tail: Seq<u8>)
    requires
        k.fits(),
    ensures
        ControlKind::take(k.wire() + tail) == Some((k, tail)),
{
    match k {
        ControlKind::JoinRoom { room_id } => {
            assert(k.wire() + tail =~= spec_u32_to_le_bytes(0) + (enc_str(room_id) + tail));
            lemma_take_u32(0, enc_str(room_id) + tail);
            lemma_take_str(room_id, tail);
        },
        ControlKind::LeaveRoom { room_id } => {
            assert(k.wire() + tail =~= spec_u32_to_le_bytes(1) + (enc_str(room_id) + tail));
            lemma_take_u32(1, enc_str(room_id) + tail);
            lemma_take_str(room_id, tail);
        },
        ControlKind::UpdateInfo { display_name } => {
            assert(k.wire() + tail =~= spec_u32_to_le_bytes(2) + (enc_str(display_name) + tail));
            lemma_take_u32(2, enc_str(display_name) + tail);
            lemma_take_str(display_name, tail);
        },
        ControlKind::MuteChanged { is_muted } => {
            assert(k.wire() + tail =~= spec_u32_to_le_bytes(3) + (enc_bool(is_muted) + tail));
            lemma_take_u32(3, enc_bool(is_muted) + tail);
            lemma_take_bool(is_muted, tail);
        },
        ControlKind::ParticipantList { participants } => {
            let t2 = infos_wire(participants) + tail;
            let t1 = spec_u64_to_le_bytes(participants.len() as u64) + t2;
            assert(k.wire() + tail =~= spec_u32_to_le_bytes(4) + t1);
            lemma_take_u32(4, t1);
            lemma_take_u64(participants.len() as u64, t2);
            lemma_infos_round_trip(participants, tail);
        },
        ControlKind::Ping => {
            lemma_take_u32(5, tail);
        },
        ControlKind::Pong => {
            lemma_take_u32(6, tail);
        },
    }
}

/// Reading the wire form of a control message gives the message back,
/// whatever follows it.
pub proof fn lemma_control_message_round_trip(m: ControlMessageView, tail: Seq<u8>)
    requires
        m.fits(),
    ensures
        ControlMessageView::parse(m.wire() + tail) == Some(m),
{
    let t4 = spec_u64_to_le_bytes(m.timestamp) + tail;
    let t3 = enc_opt_str(m.display_name) + t4;
    let t2 = enc_opt_str(m.room_id) + t3;
    let t1 = enc_str(m.peer_id) + t2;
    assert(m.wire() + tail =~= m.message_type.wire() + t1);
    lemma_kind_round_trip(m.message_type, t1);
    lemma_take_str(m.peer_id, t2);
    lemma_take_opt_str(m.room_id, t3);
    lemma_take_opt_str(m.display_name, t4);
    lemma_take_u64(m.timestamp, tail);
}

fn put_info(out: &mut Vec<u8>, info: &ParticipantInfo)
    ensures
        final(out)@ == old(out)@ + info@.wire(),
{
    put_str(out, info.peer_id.as_str());
    put_opt_str(out, &info.display_name);
    put_bool(out, info.is_mixer);
    put_bool(out, info.is_muted);
    put_u32(out, info.latency_ms);
    assert(out@ =~= old(out)@ + info@.wire());
}

proof fn lemma_infos_wire_push(infos: Seq<ParticipantInfoView>, last: ParticipantInfoView)
    ensures
        infos_wire(infos.push(last)) == infos_wire(infos) + last.wire(),
    decreases infos.len(),
{
    if infos.len() == 0 {
        assert(infos.push(last).drop_first() =~= Seq::empty());
        assert(infos.push(last)[0] == last);
        assert(infos_wire(infos.push(last).drop_first()) =~= Seq::<u8>::empty());
        assert(infos_wire(infos.push(last)) =~= last.wire());
        assert(infos_wire(infos) + last.wire() =~= last.wire());
    } else {
        assert(infos.push(last).drop_first() =~= infos.drop_first().push(last));
        lemma_infos_wire_push(infos.drop_first(), last);
        assert(infos_wire(infos.push(last)) =~= infos_wire(infos) + last.wire());
    }
}

fn put_kind(out: &mut Vec<u8>, kind: &ControlMessageType)
    ensures
        final(out)@ == old(out)@ + kind@.wire(),
{
    match kind {
        ControlMessageType::JoinRoom { room_id } => {
            put_u32(out, 0);
            put_str(out, room_id.as_str());
        },
        ControlMessageType::LeaveRoom { room_id } => {
            put_u32(out, 1);
            put_str(out, room_id.as_str());
        },
        ControlMessageType::UpdateInfo { display_name } => {
            put_u32(out, 2);
            put_str(out, display_name.as_str());
        },
        ControlMessageType::MuteChanged { is_muted } => {
            put_u32(out, 3);
            put_bool(out, *is_muted);
        },
        ControlMessageType::ParticipantList { participants } => {
            put_u32(out, 4);
            put_u64(out, participants.len() as u64);
            let ghost head = out@;
            let ghost all = infos_view(participants@);
            let mut i: usize = 0;
            assert(all.subrange(0, 0) =~= Seq::empty());
            assert(out@ =~= head + infos_wire(all.subrange(0, 0)));
            while i < participants.len()
                invariant
                    i <= participants@.len(),
                    all == infos_view(participants@),
                    out@ == head + infos_wire(all.subrange(0, i as int)),
                decreases participants@.len() - i,
            {
                put_info(out, &participants[i]);
                proof {
                    lemma_infos_wire_push(all.subrange(0, i as int), all[i as int]);
                    assert(all.subrange(0, i + 1) =~= all.subrange(0, i as int).push(all[i as int]));
                }
                i += 1;
            }
            assert(all.subrange(0, i as int) =~= all);
        },
        ControlMessageType::Ping => {
            put_u32(out, 5);
        },
        ControlMessageType::Pong => {
            put_u32(out, 6);
        },
    }
    assert(out@ =~= old(out)@ + kind@.wire());
}

fn read_info(reader: &mut Reader) -> (r: Option<ParticipantInfo>)
    requires
        old(reader).wf(),
    ensures
        final(reader).wf(),
        match ParticipantInfoView::take(old(reader).rest()) {
            Some((v, rest)) => r matches Some(i) && i@ == v && final(reader).rest() == rest,
            None => r is None,
        },
{
    let peer_id = reader.string();
    let display_name = if peer_id.is_some() { reader.opt_string() } else { None };
    let is_mixer = if display_name.is_some() { reader.bool() } else { None };
    let is_muted = if is_mixer.is_some() { reader.bool() } else { None };
    let latency_ms = if is_muted.is_some() { reader.u32() } else { None };
    match (peer_id, display_name, is_mixer, is_muted, latency_ms) {
        (Some(peer_id), Some(display_name), Some(is_mixer), Some(is_muted), Some(latency_ms)) => Some(
            ParticipantInfo { peer_id, display_name, is_mixer, is_muted, latency_ms },
        ),
        _ => None,
    }
}

/// What reading the infos comes to once the first of them are read.
spec fn joined_infos(
    done: Seq<ParticipantInfoView>,
    rest: Option<(Seq<ParticipantInfoView>, Seq<u8>)>,
) -> Option<
    (Seq<ParticipantInfoView>, Seq<u8>),
> {
    match rest {
        Some((others, d)) => Some((done + others, d)),
        None => None,
    }
}

fn read_infos(reader: &mut Reader, n: u64) -> (r: Option<Vec<ParticipantInfo>>)
    requires
        old(reader).wf(),
    ensures
        final(reader).wf(),
        match take_infos(old(reader).rest(), n as nat) {
            Some((v, rest)) => r matches Some(infos) && infos_view(infos@) == v && final(reader).rest() == rest,
            None => r is None,
        },
{
    let ghost start = reader.rest();
    let mut out: Vec<ParticipantInfo> = Vec::new();
    let mut i: u64 = 0;
    assert(infos_view(out@) =~= Seq::empty());
    assert(joined_infos(infos_view(out@), take_infos(start, n as nat)) =~= take_infos(start, n as nat)) by {
        match take_infos(start, n as nat) {
            Some((others, d)) => {
                assert(Seq::<ParticipantInfoView>::empty() + others =~= others);
            },
            None => {},
        }
    }
    while i < n
        invariant
            i <= n,
            reader.wf(),
            start == old(reader).rest(),
            take_infos(start, n as nat) == joined_infos(
                infos_view(out@),
                take_infos(reader.rest(), (n - i) as nat),
            ),
        decreases n - i,
    {
        let ghost before = reader.rest();
        let ghost done = infos_view(out@);
        match read_info(reader) {
            Some(info) => {
                out.push(info);
                proof {
                    assert(infos_view(out@) =~= done.push(info@));
                    match take_infos(reader.rest(), (n - i - 1) as nat) {
                        Some((others, d)) => {
                            assert(done + (seq![info@] + others) =~= done.push(info@) + others);
                        },
                        None => {},
                    }
                }
            },
            None => {
                assert(take_infos(before, (n - i) as nat) is None);
                return None;
            },
        }
        i += 1;
    }
    proof {
        assert(infos_view(out@) + Seq::<ParticipantInfoView>::empty() =~= infos_view(out@));
    }
    Some(out)
}

fn read_kind(reader: &mut Reader) -> (r: Option<ControlMessageType>)
    requires
        old(reader).wf(),
    ensures
        final(reader).wf(),
        match ControlKind::take(old(reader).rest()) {
            Some((v, rest)) => r matches Some(k) && k@ == v && final(reader).rest() == rest,
            None => r is None,
        },
{
    let tag = match reader.u32() {
        Some(t) => t,
        None => {
            return None;
        },
    };
    if tag == 0 {
        match reader.string() {
            Some(room_id) => Some(ControlMessageType::JoinRoom { room_id }),
            None => None,
        }
    } else if tag == 1 {
        match reader.string() {
            Some(room_id) => Some(ControlMessageType::LeaveRoom { room_id }),
            None => None,
        }
    } else if tag == 2 {
        match reader.string() {
            Some(display_name) => Some(ControlMessageType::UpdateInfo { display_name }),
            None => None,
        }
    } else if tag == 3 {
        match reader.bool() {
            Some(is_muted) => Some(ControlMessageType::MuteChanged { is_muted }),
            None => None,
        }
    } else if tag == 4 {
        let n = match reader.u64() {
            Some(n) => n,
            None => {
                return None;
            },
        };
        match read_infos(reader, n) {
            Some(participants) => Some(ControlMessageType::ParticipantList { participants }),
            None => None,
        }
    } else if tag == 5 {
        Some(ControlMessageType::Ping)
    } else if tag == 6 {
        Some(ControlMessageType::Pong)
    } else {
        None
    }
}

impl ControlMessage {
    /// A message from `peer_id` stamped with `timestamp`, without room id
    /// and display name.
    pub fn new_at(message_type: ControlMessageType, peer_id: String, timestamp: u64) -> (m: Self)
        ensures
            m == (ControlMessage {
                message_type,
                peer_id,
                room_id: None,
                display_name: None,
                timestamp,
            }),
    {
        Self { message_type, peer_id, room_id: None, display_name: None, timestamp }
    }

    /// A message from `peer_id` stamped with the current clock reading.
    pub fn new(message_type: ControlMessageType, peer_id: String) -> (m: Self)
        ensures
            m == (ControlMessage {
                message_type,
                peer_id,
                room_id: None,
                display_name: None,
                timestamp: m.timestamp,
            }),
    {
        Self::new_at(message_type, peer_id, wall_clock_ms())
    }

    /// The message by which `peer_id` joins `room_id`.
    pub fn join_room(room_id: String, peer_id: String) -> (m: Self)
        ensures
            m == (ControlMessage {
                message_type: ControlMessageType::JoinRoom { room_id },
                peer_id,
                room_id: None,
                display_name: None,
                timestamp: m.timestamp,
            }),
    {
        Self::new(ControlMessageType::JoinRoom { room_id }, peer_id)
    }

    /// The message by which `peer_id` leaves `room_id`.
    pub fn leave_room(room_id: String, peer_id: String) -> (m: Self)
        ensures
            m == (ControlMessage {
                message_type: ControlMessageType::LeaveRoom { room_id },
                peer_id,
                room_id: None,
                display_name: None,
                timestamp: m.timestamp,
            }),
    {
        Self::new(ControlMessageType::LeaveRoom { room_id }, peer_id)
    }

    /// The message by which `peer_id` tells that it muted or unmuted.
    pub fn mute_changed(peer_id: String, is_muted: bool) -> (m: Self)
        ensures
            m == (ControlMessage {
                message_type: ControlMessageType::MuteChanged { is_muted },
                peer_id,
                room_id: None,
                display_name: None,
                timestamp: m.timestamp,
            }),
    {
        Self::new(ControlMessageType::MuteChanged { is_muted }, peer_id)
    }

    /// Writes the wire form.
    pub fn encode(&self) -> (r: Result<Vec<u8>, Error>)
        ensures
            r matches Ok(bytes) && bytes@ == self@.wire(),
    {
        let mut out: Vec<u8> = Vec::new();
        put_kind(&mut out, &self.message_type);
        put_str(&mut out, self.peer_id.as_str());
        put_opt_str(&mut out, &self.room_id);
        put_opt_str(&mut out, &self.display_name);
        put_u64(&mut out, self.timestamp);
        assert(out@ =~= self@.wire());
        Ok(out)
    }

    /// Reads the message at the head of `data`.
    pub fn decode(data: &[u8]) -> (r: Result<Self, Error>)
        ensures
            match r {
                Ok(m) => ControlMessageView::parse(data@) == Some(m@),
                Err(e) => ControlMessageView::parse(data@) is None && e.is_io(reason_invalid_data()),
            },
    {
        let mut reader = Reader::new(data);
        let message_type = read_kind(&mut reader);
        let peer_id = if message_type.is_some() { reader.string() } else { None };
        let room_id = if peer_id.is_some() { reader.opt_string() } else { None };
        let display_name = if room_id.is_some() { reader.opt_string() } else { None };
        let timestamp = if display_name.is_some() { reader.u64() } else { None };
        match (message_type, peer_id, room_id, display_name, timestamp) {
            (Some(message_type), Some(peer_id), Some(room_id), Some(display_name), Some(timestamp)) => Ok(
                Self { message_type, peer_id, room_id, display_name, timestamp },
            ),
            _ => Err(Error::io("invalid data")),
        }
    }
}

/// How good a connection is, judged by its latency.
#[derive(Debug, Clone, Copy, PartialEq, Eq, Structural)]
pub enum ConnectionQuality {
    Excellent,
    Good,
    Fair,
    Poor,
}

impl ConnectionQuality {
    /// The quality of a connection by its latency in milliseconds: excellent
    /// up to 50, good up to 100, fair up to 200, poor beyond.
    pub open spec fn of_latency(latency_ms: u32) -> ConnectionQuality {
        if latency_ms <= 50 {
            ConnectionQuality::Excellent
        } else if latency_ms <= 100 {
            ConnectionQuality::Good
        } else if latency_ms <= 200 {
            ConnectionQuality::Fair
        } else {
            ConnectionQuality::Poor
        }
    }

    /// The quality of a connection with a latency of `latency_ms`.
    pub fn from_latency(latency_ms: u32) -> (q: Self)
        ensures
            q == Self::of_latency(latency_ms),
    {
        if latency_ms <= 50 {
            ConnectionQuality::Excellent
        } else if latency_ms <= 100 {
            ConnectionQuality::Good
        } else if latency_ms <= 200 {
            ConnectionQuality::Fair
        } else {
            ConnectionQuality::Poor
        }
    }

    /// The name of the quality.
    pub open spec fn name(self) -> Seq<char> {
        match self {
            ConnectionQuality::Excellent => "excellent"@,
            ConnectionQuality::Good => "good"@,
            ConnectionQuality::Fair => "fair"@,
            ConnectionQuality::Poor => "poor"@,
        }
    }

    /// The name of the quality in lower case.
    pub fn as_str(&self) -> (s: &'static str)
        ensures
            s@ == self.name(),
    {
        match self {
            ConnectionQuality::Excellent => "excellent",
            ConnectionQuality::Good => "good",
            ConnectionQuality::Fair => "fair",
            ConnectionQuality::Poor => "poor",
        }
    }
}

} // verus!
