//! The handshake that gives two peers a secure session: its messages on the
//! wire and the order of its three steps.

use crate::error::Error;
use crate::noise::{
    noise_build_initiator, noise_build_responder, noise_generate_keypair, noise_into_transport,
    noise_is_finished, noise_read, noise_remote_static, noise_transport_read,
    noise_transport_write, noise_write,
};
use crate::primitives::{x25519_public, x25519_public_key};
use vstd::prelude::*;
use vstd::slice::{slice_subrange, slice_to_vec};

verus! {

/// Name of the handshake pattern and its primitives.
pub const NOISE_PATTERN: &'static str = "Noise_XX_25519_ChaChaPoly_BLAKE2s";

/// Largest handshake message and payload, in bytes.
pub const MAX_HANDSHAKE_MESSAGE_SIZE: usize = 65535;

/// Number of messages of the handshake.
pub const HANDSHAKE_MESSAGES: u8 = 3;

#[derive(Debug, Clone, Copy, PartialEq, Eq, Structural)]
/// Where a handshake stands.
pub enum HandshakePhase {
    NotStarted,
    InProgress,
    Complete,
    Failed,
}

/// A handshake message with its optional public keys laid open.
#[derive(Debug, Clone)]
pub struct HandshakeMessage {
    pub ephemeral_public_key: Option<[u8; 32]>,
    pub static_public_key: Option<[u8; 32]>,
    pub payload: Vec<u8>,
}

/// A handshake message as plain values.
pub struct HandshakeMessageView {
    pub ephemeral_public_key: Option<Seq<u8>>,
    pub static_public_key: Option<Seq<u8>>,
    pub payload: Seq<u8>,
}

impl View for HandshakeMessage {
    type V = HandshakeMessageView;

    open spec fn view(&self) -> HandshakeMessageView {
        HandshakeMessageView {
            ephemeral_public_key: match self.ephemeral_public_key {
                Some(k) => Some(k@),
                None => None,
            },
            static_public_key: match self.static_public_key {
                Some(k) => Some(k@),
                None => None,
            },
            payload: self.payload@,
        }
    }
}

impl HandshakeMessageView {
    /// The flag byte: bit 0 tells of an ephemeral key, bit 1 of a static key.
    pub open spec fn flags(self) -> u8 {
        ((if self.ephemeral_public_key is Some { 1int } else { 0int }) + (if self.static_public_key is Some {
            2int
        } else {
            0int
        })) as u8
    }

    /// The wire form: the flag byte, the keys that the flags tell of, the
    /// length of the payload as 16 bits in little-endian order, and the
    /// payload. A payload longer than 65535 bytes has the low 16 bits of its
    /// length written.
    pub open spec fn wire(self) -> Seq<u8> {
        seq![self.flags()] + (match self.ephemeral_public_key {
            Some(k) => k,
            None => Seq::empty(),
        }) + (match self.static_public_key {
            Some(k) => k,
            None => Seq::empty(),
        }) + seq![(self.payload.len() % 256) as u8, (self.payload.len() / 256 % 256) as u8]
            + self.payload
    }

    /// The message at the head of `d`, if there is one. Flag bits other than
    /// the two lowest and bytes behind the payload are ignored.
    pub open spec fn parse(d: Seq<u8>) -> Option<HandshakeMessageView> {
        if d.len() == 0 {
            None
        } else {
            let has_e = d[0] % 2 == 1;
            let has_s = d[0] / 2 % 2 == 1;
            let at_s: int = if has_e { 33 } else { 1 };
            let at_len: int = if has_s { at_s + 32 } else { at_s };
            if at_len + 2 > d.len() {
                None
            } else {
                let len = d[at_len] + d[at_len + 1] * 256;
                if at_len + 2 + len > d.len() {
                    None
                } else {
                    Some(
                        HandshakeMessageView {
                            ephemeral_public_key: if has_e {
                                Some(d.subrange(1, 33))
                            } else {
                                None
                            },
                            static_public_key: if has_s {
                                Some(d.subrange(at_s, at_s + 32))
                            } else {
                                None
                            },
                            payload: d.subrange(at_len + 2, at_len + 2 + len),
                        },
                    )
                }
            }
        }
    }

    /// Keys of 32 bytes and a payload short enough for its length to be written.
    pub open spec fn wf(self) -> bool {
        &&& self.ephemeral_public_key matches Some(k) ==> k.len() == 32
        &&& self.static_public_key matches Some(k) ==> k.len() == 32
        &&& self.payload.len() <= 65535
    }
}

/// Reading the wire form of a handshake message gives the message back,
/// whatever follows it, provided the payload is no longer than 65535 bytes.
pub proof fn lemma_handshake_message_round_trip(m: HandshakeMessageView, tail: Seq<u8>)
    requires
        m.wf(),
    ensures
        HandshakeMessageView::parse(m.wire() + tail) == Some(m),
{
    let d = m.wire() + tail;
    let e: Seq<u8> = match m.ephemeral_public_key {
        Some(k) => k,
        None => Seq::empty(),
    };
    let s: Seq<u8> = match m.static_public_key {
        Some(k) => k,
        None => Seq::empty(),
    };
    let n = m.payload.len();
    assert(d[0] == m.flags());
    let at_s: int = if m.ephemeral_public_key is Some { 33 } else { 1 };
    let at_len: int = if m.static_public_key is Some { at_s + 32 } else { at_s };
    assert(at_len == 1 + e.len() + s.len());
    assert(d[at_len] == (n % 256) as u8);
    assert(d[at_len + 1] == (n / 256 % 256) as u8);
    assert(d[at_len] + d[at_len + 1] * 256 == n);
    if m.ephemeral_public_key is Some {
        assert(d.subrange(1, 33) =~= e);
    }
    if m.static_public_key is Some {
        assert(d.subrange(at_s, at_s + 32) =~= s);
    }
    assert(d.subrange(at_len + 2, at_len + 2 + n) =~= m.payload);
}

fn key_from(bytes: &[u8]) -> (key: [u8; 32])
    requires
        bytes@.len() == 32,
    ensures
        key@ == bytes@,
{
    let mut key = [0u8; 32];
    let mut i: usize = 0;
    while i < 32
        invariant
            i <= 32,
            bytes@.len() == 32,
            forall|j: int| 0 <= j < i ==> key@[j] == bytes@[j],
        decreases 32 - i,
    {
        key[i] = bytes[i];
        i += 1;
    }
    assert(key@ =~= bytes@);
    key
}

impl HandshakeMessage {
    /// Writes the wire form.
    pub fn encode(&self) -> (buf: Vec<u8>)
        ensures
            buf@ == self@.wire(),
    {
        let mut buf: Vec<u8> = Vec::new();
        let mut flags: u8 = 0;
        if self.ephemeral_public_key.is_some() {
            flags = flags + 1;
        }
        if self.static_public_key.is_some() {
            flags = flags + 2;
        }
        buf.push(flags);
        match &self.ephemeral_public_key {
            Some(key) => {
                buf.extend_from_slice(key.as_slice());
            },
            None => {},
        }
        match &self.static_public_key {
            Some(key) => {
                buf.extend_from_slice(key.as_slice());
            },
            None => {},
        }
        let len = self.payload.len();
        buf.push((len % 256) as u8);
        buf.push((len / 256 % 256) as u8);
        buf.extend_from_slice(self.payload.as_slice());
        assert(buf@ =~= self@.wire());
        buf
    }

    /// Reads the message at the head of `data`.
    pub fn decode(data: &[u8]) -> (m: Option<Self>)
        ensures
            match m {
                Some(msg) => HandshakeMessageView::parse(data@) == Some(msg@),
                None => HandshakeMessageView::parse(data@) is None,
            },
    {
        if data.len() == 0 {
            return None;
        }
        let flags = data[0];
        let mut offset: usize = 1;
        let ephemeral_public_key = if flags % 2 == 1 {
            if data.len() - offset < 32 {
                return None;
            }
            let key = key_from(slice_subrange(data, offset, offset + 32));
            offset += 32;
            Some(key)
        } else {
            None
        };
        let static_public_key = if flags / 2 % 2 == 1 {
            if data.len() - offset < 32 {
                return None;
            }
            let key = key_from(slice_subrange(data, offset, offset + 32));
            offset += 32;
            Some(key)
        } else {
            None
        };
        if data.len() - offset < 2 {
            return None;
        }
        let payload_len = (data[offset] as usize) + (data[offset + 1] as usize) * 256;
        offset += 2;
        if data.len() - offset < payload_len {
            return None;
        }
        let payload = slice_to_vec(slice_subrange(data, offset, offset + payload_len));
        Some(Self { ephemeral_public_key, static_public_key, payload })
    }
}

fn zeros(n: usize) -> (v: Vec<u8>)
    ensures
        v@.len() == n,
{
    let mut v: Vec<u8> = Vec::new();
    let mut i: usize = 0;
    while i < n
        invariant
            i <= n,
            v@.len() == i,
        decreases n - i,
    {
        v.push(0u8);
        i += 1;
    }
    v
}

/// One side of a mutually authenticated handshake in three messages, and of
/// the transport that follows it.
pub struct NoiseSession {
    handshake_state: Option<snow::HandshakeState>,
    transport: Option<snow::TransportState>,
    local_public_key: [u8; 32],
    remote_public_key: Option<[u8; 32]>,
    is_initiator: bool,
    messages: u8,
}

/// A session as plain values.
pub struct NoiseView {
    pub handshaking: bool,
    pub in_transport: bool,
    pub local_public: Seq<u8>,
    pub remote_public: Option<Seq<u8>>,
    pub is_initiator: bool,
    pub messages: u8,
}

impl NoiseView {
    /// Whether it is this side's turn to write: the initiator writes the
    /// first and the third message, the responder the second.
    pub open spec fn may_write(self) -> bool {
        self.handshaking && if self.is_initiator {
            self.messages == 0 || self.messages == 2
        } else {
            self.messages == 1
        }
    }

    /// Whether it is this side's turn to read: the responder reads the first
    /// and the third message, the initiator the second.
    pub open spec fn may_read(self) -> bool {
        self.handshaking && if self.is_initiator {
            self.messages == 1
        } else {
            self.messages == 0 || self.messages == 2
        }
    }

    /// The session after a message went through: one more message is done,
    /// and with the third the handshake gives way to the transport.
    pub open spec fn advanced(self, remote_public: Option<Seq<u8>>) -> NoiseView {
        NoiseView {
            handshaking: self.messages + 1 < HANDSHAKE_MESSAGES,
            in_transport: self.in_transport || self.messages + 1 == HANDSHAKE_MESSAGES,
            messages: (self.messages + 1) as u8,
            remote_public,
            ..self
        }
    }

    /// The session after the handshake broke down: neither handshake nor
    /// new transport.
    pub open spec fn broken(self, remote_public: Option<Seq<u8>>) -> NoiseView {
        NoiseView { handshaking: false, remote_public, ..self }
    }
}

/// Reason of the error returned when no handshake is under way.
pub open spec fn reason_handshake_over() -> Seq<char> {
    "Handshake already complete"@
}

/// Reason of the error returned when a handshake message cannot be written.
pub open spec fn reason_write_failed() -> Seq<char> {
    "Handshake write failed"@
}

/// Reason of the error returned when a handshake message cannot be read.
pub open spec fn reason_read_failed() -> Seq<char> {
    "Handshake read failed"@
}

/// Reason of the error returned when the handshake does not end as it should.
pub open spec fn reason_finalize_failed() -> Seq<char> {
    "Failed to finalize handshake"@
}

/// Reason of the error returned when the transport is used before the
/// handshake is complete.
pub open spec fn reason_not_complete() -> Seq<char> {
    "Handshake not complete"@
}

/// Reason of the error returned when no key pair could be drawn.
pub open spec fn reason_no_keypair() -> Seq<char> {
    "Failed to generate keypair"@
}

/// Reason of the error returned for a drawn public key that has not 32 bytes.
pub open spec fn reason_public_key_length() -> Seq<char> {
    "Invalid public key length"@
}

/// Reason of the error returned for a drawn private key of more than 32 bytes.
pub open spec fn reason_private_key_length() -> Seq<char> {
    "Invalid private key length"@
}

/// Reason of the error returned when the handshake state cannot be built.
pub open spec fn reason_build_failed() -> Seq<char> {
    "Failed to build handshake"@
}

/// Reason of the error returned for a remote static key that has not 32 bytes.
pub open spec fn reason_remote_key_length() -> Seq<char> {
    "Invalid remote public key length"@
}

/// Reason of the error returned when the transport cannot seal.
pub open spec fn reason_seal_failed() -> Seq<char> {
    "Encryption failed"@
}

/// Reason of the error returned when the transport cannot open.
pub open spec fn reason_open_failed() -> Seq<char> {
    "Decryption failed"@
}

/// Whether the remote static key `after` a message is the one known
/// `before` or a key of 32 bytes taken down with the message.
pub open spec fn key_kept_or_taken(before: Option<Seq<u8>>, after: Option<Seq<u8>>) -> bool {
    after == before || (after matches Some(k) && k.len() == 32)
}

/// Whether `e` is one of the errors that making a session ends in: no key
/// pair, a key of the wrong length, or no handshake state.
pub open spec fn is_setup_error(e: Error) -> bool {
    ||| e.is_crypto(reason_no_keypair())
    ||| e.is_crypto(reason_public_key_length())
    ||| e.is_crypto(reason_private_key_length())
    ||| e.is_crypto(reason_build_failed())
}

/// What is made of a key pair that was drawn: the private key as it is and
/// the public key as 32 bytes. No pair, a public key that has not 32 bytes
/// and a private key of more than 32 bytes are refused, in this order.
pub fn keypair_taken(keys: Option<(Vec<u8>, Vec<u8>)>) -> (r: Result<(Vec<u8>, [u8; 32]), Error>)
    ensures
        match keys {
            None => r matches Err(e) && e.is_crypto(reason_no_keypair()),
            Some((private, public)) => if public@.len() != 32 {
                r matches Err(e) && e.is_crypto(reason_public_key_length())
            } else if private@.len() > 32 {
                r matches Err(e) && e.is_crypto(reason_private_key_length())
            } else {
                r matches Ok(taken) && taken.0@ == private@ && taken.1@ == public@
            },
        },
{
    match keys {
        None => Err(Error::crypto("Failed to generate keypair")),
        Some((private, public)) => {
            if public.len() != 32 {
                Err(Error::crypto("Invalid public key length"))
            } else if private.len() > 32 {
                Err(Error::crypto("Invalid private key length"))
            } else {
                let key = key_from(public.as_slice());
                Ok((private, key))
            }
        },
    }
}

/// The remote static key once the handshake was asked for it: a key of 32
/// bytes that it reports is taken down; where it reports none, the key
/// known before stays; a reported key that has not 32 bytes is refused.
pub fn remote_key_taken(
    reported: Option<Vec<u8>>,
    known: Option<[u8; 32]>,
) -> (r: Result<Option<[u8; 32]>, Error>)
    ensures
        match reported {
            None => r matches Ok(k) && k == known,
            Some(key) => if key@.len() == 32 {
                r matches Ok(k) && k matches Some(taken) && taken@ == key@
            } else {
                r matches Err(e) && e.is_crypto(reason_remote_key_length())
            },
        },
{
    match reported {
        None => Ok(known),
        Some(key) => {
            if key.len() != 32 {
                Err(Error::crypto("Invalid remote public key length"))
            } else {
                Ok(Some(key_from(key.as_slice())))
            }
        },
    }
}

/// Whether the message that went through was the last one, where `messages`
/// were done before it and the handshake says whether it is finished: it
/// was the last exactly if it was the third, and the handshake must say the
/// same; where the two disagree there is no answer.
pub fn handshake_progress(messages: u8, finished: bool) -> (last: Option<bool>)
    ensures
        last == if finished == (messages + 1 == HANDSHAKE_MESSAGES) {
            Some(finished)
        } else {
            None
        },
{
    let third = messages == HANDSHAKE_MESSAGES - 1;
    if finished == third {
        Some(finished)
    } else {
        None
    }
}

impl View for NoiseSession {
    type V = NoiseView;

    closed spec fn view(&self) -> NoiseView {
        NoiseView {
            handshaking: self.handshake_state is Some,
            in_transport: self.transport is Some,
            local_public: self.local_public_key@,
            remote_public: match self.remote_public_key {
                Some(k) => Some(k@),
                None => None,
            },
            is_initiator: self.is_initiator,
            messages: self.messages,
        }
    }
}

impl NoiseSession {
    /// A session for a handshake under way has done fewer than three
    /// messages.
    pub open spec fn wf(&self) -> bool {
        self@.handshaking ==> self@.messages < HANDSHAKE_MESSAGES
    }

    fn new_session(is_initiator: bool) -> (r: Result<Self, Error>)
        ensures
            r matches Ok(s) ==> s.wf() && s@.handshaking && !s@.in_transport && s@.is_initiator
                == is_initiator && s@.messages == 0 && s@.remote_public is None,
            r matches Err(e) ==> is_setup_error(e),
    {
        let (private, local_public_key) = match keypair_taken(
            noise_generate_keypair(NOISE_PATTERN),
        ) {
            Ok(taken) => taken,
            Err(e) => {
                return Err(e);
            },
        };
        let built = if is_initiator {
            noise_build_initiator(NOISE_PATTERN, private.as_slice())
        } else {
            noise_build_responder(NOISE_PATTERN, private.as_slice())
        };
        match built {
            Some(state) => Ok(
                Self {
                    handshake_state: Some(state),
                    transport: None,
                    local_public_key,
                    remote_public_key: None,
                    is_initiator,
                    messages: 0,
                },
            ),
            None => Err(Error::crypto("Failed to build handshake")),
        }
    }

    /// The side that writes first, with a static key drawn at random.
    pub fn new_initiator() -> (r: Result<Self, Error>)
        ensures
            r matches Ok(s) ==> s.wf() && s@.handshaking && !s@.in_transport && s@.is_initiator
                && s@.messages == 0 && s@.remote_public is None,
            r matches Err(e) ==> is_setup_error(e),
    {
        Self::new_session(true)
    }

    /// The side that reads first, with a static key drawn at random.
    pub fn new_responder() -> (r: Result<Self, Error>)
        ensures
            r matches Ok(s) ==> s.wf() && s@.handshaking && !s@.in_transport && !s@.is_initiator
                && s@.messages == 0 && s@.remote_public is None,
            r matches Err(e) ==> is_setup_error(e),
    {
        Self::new_session(false)
    }

    /// The same side with a given static key: the handshake starts over.
    pub fn with_local_key(self, private_key: [u8; 32]) -> (r: Result<Self, Error>)
        ensures
            r matches Ok(s) ==> s.wf() && s@ == (NoiseView {
                handshaking: true,
                local_public: x25519_public_key(private_key@),
                messages: 0,
                ..self@
            }),
            r matches Err(e) ==> e.is_crypto(reason_build_failed()),
    {
        let local_public_key = x25519_public(&private_key);
        let built = if self.is_initiator {
            noise_build_initiator(NOISE_PATTERN, private_key.as_slice())
        } else {
            noise_build_responder(NOISE_PATTERN, private_key.as_slice())
        };
        match built {
            Some(state) => Ok(
                Self {
                    handshake_state: Some(state),
                    transport: self.transport,
                    local_public_key,
                    remote_public_key: self.remote_public_key,
                    is_initiator: self.is_initiator,
                    messages: 0,
                },
            ),
            None => Err(Error::crypto("Failed to build handshake")),
        }
    }

    /// The same side, told the static key of the other side in advance.
    pub fn with_remote_public_key(self, remote_public_key: [u8; 32]) -> (s: Self)
        ensures
            s@ == (NoiseView { remote_public: Some(remote_public_key@), ..self@ }),
    {
        let mut s = self;
        s.remote_public_key = Some(remote_public_key);
        s
    }

    /// The static public key of this side.
    pub fn public_key(&self) -> (k: &[u8; 32])
        ensures
            k@ == self@.local_public,
    {
        &self.local_public_key
    }

    /// The static public key of the other side, once it is known.
    pub fn remote_public_key(&self) -> (k: Option<&[u8; 32]>)
        ensures
            match k {
                Some(key) => self@.remote_public == Some(key@),
                None => self@.remote_public is None,
            },
    {
        self.remote_public_key.as_ref()
    }

    /// Whether the transport is ready.
    pub fn is_handshake_complete(&self) -> (b: bool)
        ensures
            b == self@.in_transport,
    {
        self.transport.is_some()
    }

    /// How many handshake messages went through.
    pub fn messages_exchanged(&self) -> (n: u8)
        ensures
            n == self@.messages,
    {
        self.messages
    }

    /// Where the handshake stands.
    pub fn handshake_state(&self) -> (s: HandshakePhase)
        ensures
            s == if self@.in_transport {
                HandshakePhase::Complete
            } else if !self@.handshaking {
                HandshakePhase::Failed
            } else if self@.messages == 0 {
                HandshakePhase::NotStarted
            } else {
                HandshakePhase::InProgress
            },
    {
        if self.transport.is_some() {
            HandshakePhase::Complete
        } else if self.handshake_state.is_none() {
            HandshakePhase::Failed
        } else if self.messages == 0 {
            HandshakePhase::NotStarted
        } else {
            HandshakePhase::InProgress
        }
    }

    /// Counts the message that went through and, after the third, turns the
    /// handshake into the transport.
    fn advance(&mut self) -> (r: Result<(), Error>)
        requires
            old(self).wf(),
            old(self)@.handshaking,
        ensures
            final(self).wf(),
            match r {
                Ok(()) => final(self)@ == old(self)@.advanced(old(self)@.remote_public),
                Err(e) => final(self)@ == old(self)@.broken(old(self)@.remote_public)
                    && e.is_crypto(reason_finalize_failed()),
            },
    {
        let mut state: Option<snow::HandshakeState> = None;
        std::mem::swap(&mut self.handshake_state, &mut state);
        let state = match state {
            Some(s) => s,
            None => {
                return Err(Error::crypto("Failed to finalize handshake"));
            },
        };
        let last = match handshake_progress(self.messages, noise_is_finished(&state)) {
            Some(last) => last,
            None => {
                return Err(Error::crypto("Failed to finalize handshake"));
            },
        };
        if last {
            match noise_into_transport(state) {
                Some(transport) => {
                    self.transport = Some(transport);
                    self.messages = self.messages + 1;
                    Ok(())
                },
                None => Err(Error::crypto("Failed to finalize handshake")),
            }
        } else {
            self.handshake_state = Some(state);
            self.messages = self.messages + 1;
            Ok(())
        }
    }

    /// Writes the next handshake message around `payload`.
    ///
    /// Without a handshake under way, out of turn, or with a payload beyond
    /// the largest message, the call fails and changes nothing. In turn, a
    /// written message counts as done, and the third one done completes the
    /// handshake: exactly then is the transport ready. A message that cannot
    /// be written changes nothing; a handshake that does not end with its
    /// third message is broken off.
    pub fn write_handshake_message(&mut self, payload: &[u8]) -> (r: Result<Vec<u8>, Error>)
        requires
            old(self).wf(),
        ensures
            final(self).wf(),
            match r {
                Ok(message) => {
                    &&& old(self)@.may_write()
                    &&& payload@.len() <= MAX_HANDSHAKE_MESSAGE_SIZE
                    &&& message@.len() <= MAX_HANDSHAKE_MESSAGE_SIZE
                    &&& final(self)@ == old(self)@.advanced(old(self)@.remote_public)
                },
                Err(e) => if !old(self)@.handshaking {
                    final(self)@ == old(self)@ && e.is_crypto(reason_handshake_over())
                } else if !old(self)@.may_write() || payload@.len() > MAX_HANDSHAKE_MESSAGE_SIZE {
                    final(self)@ == old(self)@ && e.is_crypto(reason_write_failed())
                } else {
                    ||| final(self)@ == old(self)@ && e.is_crypto(reason_write_failed())
                    ||| final(self)@ == old(self)@.broken(old(self)@.remote_public) && e.is_crypto(reason_finalize_failed())
                },
            },
    {
        if self.handshake_state.is_none() {
            return Err(Error::crypto("Handshake already complete"));
        }
        let my_turn = if self.is_initiator {
            self.messages == 0 || self.messages == 2
        } else {
            self.messages == 1
        };
        if !my_turn || payload.len() > MAX_HANDSHAKE_MESSAGE_SIZE {
            return Err(Error::crypto("Handshake write failed"));
        }
        let mut message = zeros(MAX_HANDSHAKE_MESSAGE_SIZE);
        let written = match &mut self.handshake_state {
            Some(state) => noise_write(state, payload, &mut message),
            None => Err(()),
        };
        match written {
            Ok(len) => {
                message.truncate(len);
                match self.advance() {
                    Ok(()) => Ok(message),
                    Err(e) => Err(e),
                }
            },
            Err(_) => Err(Error::crypto("Handshake write failed")),
        }
    }

    /// Reads the next handshake message and gives its payload.
    ///
    /// Without a handshake under way or out of turn, the call fails and
    /// changes nothing. In turn, a message that was read counts as done, the
    /// static key of the other side is taken down as soon as the handshake
    /// knows it, and the third message done completes the handshake: exactly
    /// then is the transport ready. A message that cannot be read changes
    /// nothing.
    pub fn read_handshake_message(&mut self, message: &[u8]) -> (r: Result<Vec<u8>, Error>)
        requires
            old(self).wf(),
        ensures
            final(self).wf(),
            match r {
                Ok(payload) => {
                    &&& old(self)@.may_read()
                    &&& payload@.len() <= MAX_HANDSHAKE_MESSAGE_SIZE
                    &&& final(self)@ == old(self)@.advanced(final(self)@.remote_public)
                    &&& key_kept_or_taken(old(self)@.remote_public, final(self)@.remote_public)
                },
                Err(e) => if !old(self)@.handshaking {
                    final(self)@ == old(self)@ && e.is_crypto(reason_handshake_over())
                } else if !old(self)@.may_read() {
                    final(self)@ == old(self)@ && e.is_crypto(reason_read_failed())
                } else {
                    ||| final(self)@ == old(self)@ && e.is_crypto(reason_read_failed())
                    ||| final(self)@ == old(self)@.broken(old(self)@.remote_public) && e.is_crypto(
                        reason_remote_key_length(),
                    )
                    ||| final(self)@ == old(self)@.broken(final(self)@.remote_public)
                        && key_kept_or_taken(old(self)@.remote_public, final(self)@.remote_public)
                        && e.is_crypto(reason_finalize_failed())
                },
            },
    {
        if self.handshake_state.is_none() {
            return Err(Error::crypto("Handshake already complete"));
        }
        let my_turn = if self.is_initiator {
            self.messages == 1
        } else {
            self.messages == 0 || self.messages == 2
        };
        if !my_turn {
            return Err(Error::crypto("Handshake read failed"));
        }
        let mut payload = zeros(MAX_HANDSHAKE_MESSAGE_SIZE);
        let (read, remote) = match &mut self.handshake_state {
            Some(state) => {
                let read = noise_read(state, message, &mut payload);
                let remote = if read.is_ok() {
                    noise_remote_static(state)
                } else {
                    None
                };
                (read, remote)
            },
            None => (Err(()), None),
        };
        match read {
            Ok(len) => {
                payload.truncate(len);
                match remote_key_taken(remote, self.remote_public_key) {
                    Ok(key) => {
                        self.remote_public_key = key;
                    },
                    Err(e) => {
                        self.handshake_state = None;
                        return Err(e);
                    },
                }
                match self.advance() {
                    Ok(()) => Ok(payload),
                    Err(e) => Err(e),
                }
            },
            Err(_) => Err(Error::crypto("Handshake read failed")),
        }
    }

    /// Seals `plaintext` for the other side. Before the handshake is
    /// complete the call fails.
    pub fn encrypt(&mut self, plaintext: &[u8]) -> (r: Result<Vec<u8>, Error>)
        ensures
            final(self)@ == old(self)@,
            match r {
                Ok(c) => old(self)@.in_transport && c@.len() == plaintext@.len() + 16,
                Err(e) => e.is_crypto(
                    if old(self)@.in_transport {
                        reason_seal_failed()
                    } else {
                        reason_not_complete()
                    },
                ),
            },
    {
        let capacity = match plaintext.len().checked_add(16) {
            Some(n) => n,
            None => {
                return match &self.transport {
                    Some(_) => Err(Error::crypto("Encryption failed")),
                    None => Err(Error::crypto("Handshake not complete")),
                };
            },
        };
        match &mut self.transport {
            None => Err(Error::crypto("Handshake not complete")),
            Some(transport) => {
                let mut ciphertext = zeros(capacity);
                match noise_transport_write(transport, plaintext, &mut ciphertext) {
                    Ok(len) => {
                        ciphertext.truncate(len);
                        Ok(ciphertext)
                    },
                    Err(_) => Err(Error::crypto("Encryption failed")),
                }
            },
        }
    }

    /// Opens `ciphertext` from the other side. Before the handshake is
    /// complete the call fails.
    pub fn decrypt(&mut self, ciphertext: &[u8]) -> (r: Result<Vec<u8>, Error>)
        ensures
            final(self)@ == old(self)@,
            match r {
                Ok(p) => old(self)@.in_transport && p@.len() + 16 == ciphertext@.len(),
                Err(e) => e.is_crypto(
                    if old(self)@.in_transport {
                        reason_open_failed()
                    } else {
                        reason_not_complete()
                    },
                ),
            },
    {
        match &mut self.transport {
            None => Err(Error::crypto("Handshake not complete")),
            Some(transport) => {
                let mut plaintext = zeros(ciphertext.len());
                match noise_transport_read(transport, ciphertext, &mut plaintext) {
                    Ok(len) => {
                        plaintext.truncate(len);
                        Ok(plaintext)
                    },
                    Err(_) => Err(Error::crypto("Decryption failed")),
                }
            },
        }
    }
}

/// The handshake completes in exactly three messages: a session whose
/// transport became ready by a message that went through has done three
/// messages, and the one before it had done two.
pub proof fn lemma_handshake_completes_in_three(before: NoiseView, after: NoiseView)
    requires
        before.handshaking ==> before.messages < HANDSHAKE_MESSAGES,
        before.handshaking,
        !before.in_transport,
        after == before.advanced(after.remote_public),
    ensures
        after.in_transport <==> before.messages == 2,
        after.in_transport ==> after.messages == HANDSHAKE_MESSAGES && !after.handshaking,
        !after.in_transport ==> after.handshaking && after.messages < HANDSHAKE_MESSAGES,
{
}

} // verus!
