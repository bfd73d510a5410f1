//! The core of a peer-to-peer voice chat: the secure session layer, NAT
//! traversal and connectivity establishment, the books of the audio path, and
//! the election of the mixer of a room.
//!
//! Every function states what it returns or changes, and the statement is
//! proved. Where a function reads the clock or draws at random, a twin that
//! takes the instant or the draw as an argument carries the exact statement.
//! What is taken on trust of other crates and of std is declared in
//! `primitives`, `noise`, `stun_client`, `random`, `time`, `text`, `wire`
//! and, for the replay set, `crypto`, each with a note of what is claimed.

pub mod addr;
pub mod aec;
pub mod audio;
pub mod audio_processor;
pub mod challenge;
pub mod codec;
pub mod crypto;
pub mod denoise;
pub mod error;
pub mod handshake;
pub mod ice;
pub mod identity;
pub mod jitter;
pub mod key_manager;
pub mod mixer;
pub mod nat_traversal;
pub mod noise;
pub mod primitives;
pub mod protocol;
pub mod random;
pub mod room;
pub mod score;
pub mod string_map;
pub mod stun_client;
pub mod tcp_punch;
pub mod text;
pub mod time;
pub mod turn;
pub mod upnp;
pub mod wire;

pub use addr::{IpAddress, SocketAddress};
pub use audio::AudioConfig;
pub use audio_processor::{
    AdaptiveBitrateController, AudioProcessor, AudioProcessorConfig, BitrateLevel, ProcessorStats,
};
pub use challenge::{Challenge, ChallengeType};
pub use codec::{EncodedFrame, OpusConfig, OpusDecoder, OpusEncoder, OpusMode};
pub use crypto::{EncryptedChannel, EncryptedMessage, KeyExchange, SessionKey};
pub use denoise::RnnoiseDenoiser;
pub use error::AgoraResult as Result;
pub use handshake::{HandshakeMessage, HandshakePhase, NoiseSession};
pub use ice::{
    Candidate, CandidatePair, CandidateType, ConnectionState, IceAgent, IceConfig, IceRole,
};
pub use identity::Identity;
pub use key_manager::{KeyRotationEvent, SecureAudioChannel, SessionKeyManager};
pub use mixer::{MixerConfig, MixerManager, MixerRole, Participant};
pub use nat_traversal::{NatTraversal, NatType, ObservedAddr};
pub use protocol::{
    AudioPacket, ControlMessage, ControlMessageType, EncryptedAudioPacket,
    ParticipantInfo as ProtocolParticipantInfo,
};
pub use room::{Room, RoomConfig};
pub use stun_client::{StunBinding, StunClient, StunResult};
pub use tcp_punch::{TcpHolePunchConfig, TcpHolePunchResult, TcpHolePuncher, TcpPunchMethod};
pub use turn::{TurnAllocation, TurnCandidate, TurnClient, TurnConfig, TurnPermission, TurnServer};
pub use upnp::{
    NatPmpClient, NatPmpConfig, PortForwarder, PortMapping, Protocol, UpnpClient, UpnpConfig,
    UpnpDevice,
};
