//! Session keys, the encrypted channel with its replay protection, key
//! agreement and key derivation.

use crate::error::Error;
use crate::primitives::{
    aead_open, aead_seal, agrees, base64_encode, base64_standard, hex_encode, hex_lower,
    hkdf_expand_32, hkdf_sha256, opened, sealable, sealed, sha256, sha256_digest, x25519_public,
    x25519_public_key, x25519_shared,
};
use crate::random::{os_random_bytes_32, random_bytes_32};
use crate::text::{chars_of, string_of};
use crate::time::{duration_millis, duration_to_ms, wall_clock_ms};
use std::collections::HashMap;
use std::time::Duration;
use vstd::bytes::{
    lemma_auto_spec_u64_to_from_le_bytes, spec_u64_from_le_bytes, spec_u64_to_le_bytes,
    u64_from_le_bytes, u64_to_le_bytes,
};
use vstd::prelude::*;
use vstd::slice::{slice_subrange, slice_to_vec};
use vstd::utf8::encode_utf8;

verus! {

/// Lifetime of a session key unless another is given: one hour, in milliseconds.
pub const DEFAULT_KEY_LIFETIME_MS: u64 = 3_600_000;

/// How long an observed receive counter is remembered: five minutes, in milliseconds.
pub const REPLAY_HORIZON_MS: u64 = 300_000;

/// Shortest wire form of an encrypted message: a nonce and a bare tag.
pub const MIN_MESSAGE_LEN: usize = 28;

/// A 256-bit symmetric key with the instant it was minted and its lifetime,
/// both in milliseconds.
#[derive(Debug, Clone)]
pub struct SessionKey {
    key: [u8; 32],
    created_at: u64,
    expires_after: u64,
}

impl SessionKey {
    /// The key material.
    pub closed spec fn bytes(&self) -> Seq<u8> {
        self.key@
    }

    /// The instant the key was minted.
    pub closed spec fn created_at(&self) -> u64 {
        self.created_at
    }

    /// The lifetime of the key.
    pub closed spec fn lifetime(&self) -> u64 {
        self.expires_after
    }

    /// A key is expired at `now` once more than its lifetime has passed since
    /// it was minted. A clock that reads earlier than the minting instant
    /// counts as no time passed.
    pub open spec fn expired_at(&self, now: u64) -> bool {
        now > self.created_at() && now - self.created_at() > self.lifetime()
    }

    /// A key minted at `now` with the default lifetime.
    pub fn new_at(key: [u8; 32], now: u64) -> (k: Self)
        ensures
            k.bytes() == key@,
            k.created_at() == now,
            k.lifetime() == DEFAULT_KEY_LIFETIME_MS,
    {
        Self { key, created_at: now, expires_after: DEFAULT_KEY_LIFETIME_MS }
    }

    /// A key minted at `now` that lives for `expires_after` milliseconds.
    pub fn with_expiry_at(key: [u8; 32], expires_after: u64, now: u64) -> (k: Self)
        ensures
            k.bytes() == key@,
            k.created_at() == now,
            k.lifetime() == expires_after,
    {
        Self { key, created_at: now, expires_after }
    }

    /// A key minted at the current clock reading with the default lifetime.
    pub fn new(key: [u8; 32]) -> (k: Self)
        ensures
            k.bytes() == key@,
            k.lifetime() == DEFAULT_KEY_LIFETIME_MS,
    {
        Self::new_at(key, wall_clock_ms())
    }

    /// A key minted at the current clock reading that lives for
    /// `expires_after`, counted in whole milliseconds.
    pub fn with_expiry(key: [u8; 32], expires_after: Duration) -> (k: Self)
        ensures
            k.bytes() == key@,
            k.lifetime() == duration_millis(expires_after),
    {
        Self::with_expiry_at(key, duration_to_ms(expires_after), wall_clock_ms())
    }

    /// Whether the key is expired at `now`.
    pub fn is_expired_at(&self, now: u64) -> (b: bool)
        ensures
            b == self.expired_at(now),
    {
        now > self.created_at && now - self.created_at > self.expires_after
    }

    /// Whether the key is expired at the current clock reading.
    pub fn is_expired(&self) -> (b: bool)
        ensures
            exists|now: u64| b == #[trigger] self.expired_at(now),
    {
        let now = wall_clock_ms();
        let b = self.is_expired_at(now);
        assert(b == self.expired_at(now));
        b
    }

    /// The key material.
    pub fn as_bytes(&self) -> (b: &[u8; 32])
        ensures
            b@ == self.bytes(),
    {
        &self.key
    }

    /// The key for one peer: HKDF-SHA256 without salt over the key, with the
    /// peer id as info.
    pub fn derive_for_peer(&self, peer_id: &[u8]) -> (derived: [u8; 32])
        ensures
            derived@ == hkdf_sha256(None, self.bytes(), peer_id@),
    {
        hkdf_expand_32(None, self.key.as_slice(), peer_id)
    }
}

/// Expiry is monotone: a key expired at one instant is expired at every later one.
pub proof fn lemma_expiry_is_monotone(key: SessionKey, earlier: u64, later: u64)
    requires
        earlier <= later,
        key.expired_at(earlier),
    ensures
        key.expired_at(later),
{
}

/// A sealed message: the nonce it was sealed under and the ciphertext with
/// its tag.
#[derive(Debug, Clone)]
pub struct EncryptedMessage {
    pub nonce: [u8; 12],
    pub ciphertext: Vec<u8>,
}

impl EncryptedMessage {
    /// The wire form: the nonce followed by the ciphertext.
    pub open spec fn wire(&self) -> Seq<u8> {
        self.nonce@ + self.ciphertext@
    }

    /// The message of a nonce and a ciphertext.
    pub fn new(nonce: [u8; 12], ciphertext: Vec<u8>) -> (m: Self)
        ensures
            m.nonce == nonce,
            m.ciphertext == ciphertext,
    {
        Self { nonce, ciphertext }
    }

    /// Writes the wire form.
    pub fn to_bytes(&self) -> (bytes: Vec<u8>)
        ensures
            bytes@ == self.wire(),
    {
        let mut bytes: Vec<u8> = Vec::new();
        bytes.extend_from_slice(self.nonce.as_slice());
        bytes.extend_from_slice(self.ciphertext.as_slice());
        bytes
    }

    /// Reads the wire form. Anything shorter than a nonce and a tag is
    /// refused; everything else splits after the twelfth byte.
    pub fn from_bytes(bytes: &[u8]) -> (m: Option<Self>)
        ensures
            m is Some <==> bytes@.len() >= MIN_MESSAGE_LEN,
            m matches Some(msg) ==> msg.nonce@ == bytes@.subrange(0, 12) && msg.ciphertext@
                == bytes@.subrange(12, bytes@.len() as int),
    {
        if bytes.len() < MIN_MESSAGE_LEN {
            return None;
        }
        let mut nonce = [0u8; 12];
        let mut i: usize = 0;
        while i < 12
            invariant
                i <= 12,
                bytes@.len() >= MIN_MESSAGE_LEN,
                forall|j: int| 0 <= j < i ==> nonce@[j] == bytes@[j],
            decreases 12 - i,
        {
            nonce[i] = bytes[i];
            i += 1;
        }
        let ciphertext = slice_to_vec(slice_subrange(bytes, 12, bytes.len()));
        assert(nonce@ =~= bytes@.subrange(0, 12));
        Some(Self { nonce, ciphertext })
    }
}

/// Reading back what was written gives the same message, whenever the
/// ciphertext holds at least its tag.
pub proof fn lemma_wire_round_trip(m: EncryptedMessage)
    requires
        m.ciphertext@.len() >= 16,
    ensures
        m.wire().len() >= MIN_MESSAGE_LEN,
        m.wire().subrange(0, 12) == m.nonce@,
        m.wire().subrange(12, m.wire().len() as int) == m.ciphertext@,
{
    assert(m.wire().subrange(0, 12) =~= m.nonce@);
    assert(m.wire().subrange(12, m.wire().len() as int) =~= m.ciphertext@);
}

/// The nonce of send counter `counter`: four zero bytes, then the counter in
/// little-endian order.
pub open spec fn nonce_for(counter: u64) -> Seq<u8> {
    seq![0u8, 0u8, 0u8, 0u8] + spec_u64_to_le_bytes(counter)
}

/// The send counter that a nonce carries in its low eight bytes.
pub open spec fn counter_of(nonce: Seq<u8>) -> u64 {
    spec_u64_from_le_bytes(nonce.subrange(4, 12))
}

/// Builds the nonce of a send counter.
pub fn derive_nonce(counter: u64) -> (nonce: [u8; 12])
    ensures
        nonce@ == nonce_for(counter),
{
    let le = u64_to_le_bytes(counter);
    proof {
        lemma_auto_spec_u64_to_from_le_bytes();
    }
    let mut nonce = [0u8; 12];
    let mut i: usize = 0;
    while i < 8
        invariant
            i <= 8,
            le@.len() == 8,
            forall|j: int| 0 <= j < 4 ==> nonce@[j] == 0,
            forall|j: int| 0 <= j < i ==> nonce@[4 + j] == le@[j],
        decreases 8 - i,
    {
        nonce[4 + i] = le[i];
        i += 1;
    }
    assert(nonce@ =~= nonce_for(counter));
    nonce
}

/// Reads the send counter out of a nonce.
pub fn extract_counter(nonce: &[u8; 12]) -> (counter: u64)
    ensures
        counter == counter_of(nonce@),
{
    u64_from_le_bytes(slice_subrange(nonce.as_slice(), 4, 12))
}

/// A nonce names its send counter: reading the counter of a built nonce gives
/// the counter back, so two counters never share a nonce.
pub proof fn lemma_nonce_names_counter(a: u64, b: u64)
    ensures
        counter_of(nonce_for(a)) == a,
        nonce_for(a) == nonce_for(b) ==> a == b,
{
    lemma_auto_spec_u64_to_from_le_bytes();
    assert(nonce_for(a).subrange(4, 12) =~= spec_u64_to_le_bytes(a));
    assert(nonce_for(b).subrange(4, 12) =~= spec_u64_to_le_bytes(b));
}

/// Reason of the error returned when the key has outlived its lifetime.
pub open spec fn reason_key_expired() -> Seq<char> {
    "Session key expired"@
}

/// Reason of the error returned when a receive counter was seen before.
pub open spec fn reason_replay() -> Seq<char> {
    "Replay attack detected"@
}

/// Reason of the error returned when the plaintext is too long to seal.
pub open spec fn reason_encryption_failed() -> Seq<char> {
    "Encryption failed: aead::Error"@
}

/// Reason of the error returned when the tag does not verify.
pub open spec fn reason_decryption_failed() -> Seq<char> {
    "Decryption failed: aead::Error"@
}

/// Whether a counter observed at `seen_at` is still within the replay
/// horizon at `now`.
pub open spec fn spec_within_horizon(seen_at: u64, now: u64) -> bool {
    seen_at + REPLAY_HORIZON_MS > now
}

/// Whether a counter observed at `seen_at` is still within the replay
/// horizon at `now`.
#[verifier::when_used_as_spec(spec_within_horizon)]
pub fn within_horizon(seen_at: u64, now: u64) -> (b: bool)
    ensures
        b == spec_within_horizon(seen_at, now),
{
    now < REPLAY_HORIZON_MS || seen_at > now - REPLAY_HORIZON_MS
}

/// The replay set after pruning at `now`: exactly the entries still within
/// the horizon, each with its instant unchanged.
pub open spec fn pruned(seen: Map<u64, u64>, now: u64) -> Map<u64, u64> {
    Map::new(|c: u64| seen.contains_key(c) && within_horizon(seen[c], now), |c: u64| seen[c])
}

/// Calls `HashMap::retain` of std with a predicate that keeps the entries
/// within the replay horizon. The contract claims that exactly the entries
/// for which the predicate holds stay, unchanged.
#[verifier::external_body]
fn retain_within_horizon(seen: &mut HashMap<u64, u64>, now: u64)
    ensures
        final(seen)@ == pruned(old(seen)@, now),
{
    seen.retain(|_, seen_at| within_horizon(*seen_at, now));
}

/// One direction-agnostic secure channel: a session key, the next send
/// counter, and the receive counters observed so far with the instant each
/// was observed.
pub struct EncryptedChannel {
    session_key: SessionKey,
    peer_public_key: Option<Vec<u8>>,
    send_counter: u64,
    recv_counters: HashMap<u64, u64>,
}

impl EncryptedChannel {
    /// The session key in use.
    pub closed spec fn key(&self) -> SessionKey {
        self.session_key
    }

    /// The counter that the next sealed message will carry.
    pub closed spec fn send_counter(&self) -> u64 {
        self.send_counter
    }

    /// The receive counters observed so far, each with the instant it was observed.
    pub closed spec fn seen(&self) -> Map<u64, u64> {
        self.recv_counters@
    }

    /// The public key of the peer, when one was given.
    pub closed spec fn peer_key(&self) -> Option<Seq<u8>> {
        match self.peer_public_key {
            Some(k) => Some(k@),
            None => None,
        }
    }

    /// A channel that has sealed and observed nothing yet under `session_key`.
    pub open spec fn is_fresh(&self, session_key: SessionKey) -> bool {
        &&& self.key() == session_key
        &&& self.send_counter() == 0
        &&& self.seen() == Map::<u64, u64>::empty()
        &&& self.peer_key() is None
    }

    /// A fresh channel under `session_key`: counter zero, nothing observed.
    pub fn new(session_key: SessionKey) -> (c: Self)
        ensures
            c.is_fresh(session_key),
    {
        Self {
            session_key,
            peer_public_key: None,
            send_counter: 0,
            recv_counters: HashMap::new(),
        }
    }

    /// A fresh channel under `session_key` that remembers the peer's public key.
    pub fn with_peer_key(session_key: SessionKey, peer_public_key: Vec<u8>) -> (c: Self)
        ensures
            c.key() == session_key,
            c.send_counter() == 0,
            c.seen() == Map::<u64, u64>::empty(),
            c.peer_key() == Some(peer_public_key@),
    {
        Self {
            session_key,
            peer_public_key: Some(peer_public_key),
            send_counter: 0,
            recv_counters: HashMap::new(),
        }
    }

    /// What sealing `plaintext` at instant `now` does to a channel and returns.
    ///
    /// An expired key refuses and leaves the channel untouched. Otherwise the
    /// send counter advances by one, wrapping, and the message carries the
    /// nonce of the counter before the call; only a plaintext beyond the
    /// cipher's block limit then fails.
    pub open spec fn encrypt_spec(
        self,
        plaintext: Seq<u8>,
        now: u64,
        after: Self,
        r: Result<EncryptedMessage, Error>,
    ) -> bool {
        &&& after.key() == self.key()
        &&& after.seen() == self.seen()
        &&& after.peer_key() == self.peer_key()
        &&& after.send_counter() == if self.key().expired_at(now) {
            self.send_counter()
        } else {
            self.send_counter().wrapping_add(1)
        }
        &&& match r {
            Ok(m) => {
                &&& !self.key().expired_at(now)
                &&& sealable(plaintext.len())
                &&& m.nonce@ == nonce_for(self.send_counter())
                &&& m.ciphertext@ == sealed(self.key().bytes(), m.nonce@, plaintext)
                &&& m.ciphertext@.len() == plaintext.len() + 16
                &&& opened(self.key().bytes(), m.nonce@, m.ciphertext@) == Some(plaintext)
            },
            Err(e) => if self.key().expired_at(now) {
                e.is_crypto(reason_key_expired())
            } else {
                !sealable(plaintext.len()) && e.is_crypto(reason_encryption_failed())
            },
        }
    }

    /// What opening `message` at instant `now` does to a channel and returns.
    ///
    /// Refusals, in this order, each leaving the channel untouched: the key is
    /// expired; the counter in the nonce was observed before; the tag does not
    /// verify. Otherwise the plaintext is returned, the counter is recorded
    /// with `now`, and the replay set is pruned at `now`.
    pub open spec fn decrypt_spec(
        self,
        message: EncryptedMessage,
        now: u64,
        after: Self,
        r: Result<Vec<u8>, Error>,
    ) -> bool {
        let counter = counter_of(message.nonce@);
        let plain = opened(self.key().bytes(), message.nonce@, message.ciphertext@);
        &&& after.key() == self.key()
        &&& after.send_counter() == self.send_counter()
        &&& after.peer_key() == self.peer_key()
        &&& match r {
            Ok(p) => {
                &&& !self.key().expired_at(now)
                &&& !self.seen().contains_key(counter)
                &&& plain == Some(p@)
                &&& after.seen() == pruned(self.seen().insert(counter, now), now)
            },
            Err(e) => {
                &&& after.seen() == self.seen()
                &&& if self.key().expired_at(now) {
                    e.is_crypto(reason_key_expired())
                } else if self.seen().contains_key(counter) {
                    e.is_crypto(reason_replay())
                } else {
                    plain is None && e.is_crypto(reason_decryption_failed())
                }
            },
        }
    }

    /// Whether the channel would open `message` at `now`: the key is alive,
    /// the counter is new, and the tag verifies.
    pub open spec fn accepts(self, message: EncryptedMessage, now: u64) -> bool {
        &&& !self.key().expired_at(now)
        &&& !self.seen().contains_key(counter_of(message.nonce@))
        &&& opened(self.key().bytes(), message.nonce@, message.ciphertext@) is Some
    }

    /// Two channels in the same state: same key, same counters.
    pub open spec fn same_state(self, other: Self) -> bool {
        &&& self.key() == other.key()
        &&& self.send_counter() == other.send_counter()
        &&& self.seen() == other.seen()
        &&& self.peer_key() == other.peer_key()
    }

    /// Seals `plaintext` at instant `now`.
    pub fn encrypt_at(&mut self, plaintext: &[u8], now: u64) -> (r: Result<EncryptedMessage, Error>)
        ensures
            old(self).encrypt_spec(plaintext@, now, *final(self), r),
    {
        if self.session_key.is_expired_at(now) {
            return Err(Error::crypto("Session key expired"));
        }
        let nonce = derive_nonce(self.send_counter);
        self.send_counter = self.send_counter.wrapping_add(1);
        match aead_seal(self.session_key.as_bytes(), &nonce, plaintext) {
            Some(ciphertext) => Ok(EncryptedMessage::new(nonce, ciphertext)),
            None => Err(Error::crypto("Encryption failed: aead::Error")),
        }
    }

    /// Opens `message` at instant `now`.
    pub fn decrypt_at(
        &mut self,
        message: &EncryptedMessage,
        now: u64,
    ) -> (r: Result<Vec<u8>, Error>)
        ensures
            old(self).decrypt_spec(*message, now, *final(self), r),
    {
        broadcast use vstd::std_specs::hash::group_hash_axioms;

        if self.session_key.is_expired_at(now) {
            return Err(Error::crypto("Session key expired"));
        }
        let counter = extract_counter(&message.nonce);
        if self.recv_counters.contains_key(&counter) {
            return Err(Error::crypto("Replay attack detected"));
        }
        match aead_open(self.session_key.as_bytes(), &message.nonce, message.ciphertext.as_slice()) {
            Some(plaintext) => {
                self.recv_counters.insert(counter, now);
                retain_within_horizon(&mut self.recv_counters, now);
                Ok(plaintext)
            },
            None => Err(Error::crypto("Decryption failed: aead::Error")),
        }
    }

    /// Seals `plaintext` at the current clock reading.
    pub fn encrypt(&mut self, plaintext: &[u8]) -> (r: Result<EncryptedMessage, Error>)
        ensures
            exists|now: u64| old(self).encrypt_spec(plaintext@, now, *final(self), r),
    {
        let now = wall_clock_ms();
        let r = self.encrypt_at(plaintext, now);
        assert(old(self).encrypt_spec(plaintext@, now, *self, r));
        r
    }

    /// Opens `message` at the current clock reading.
    pub fn decrypt(&mut self, message: &EncryptedMessage) -> (r: Result<Vec<u8>, Error>)
        ensures
            exists|now: u64| old(self).decrypt_spec(*message, now, *final(self), r),
    {
        let now = wall_clock_ms();
        let r = self.decrypt_at(message, now);
        assert(old(self).decrypt_spec(*message, now, *self, r));
        r
    }

    /// Forgets the receive counters that have left the replay horizon at `now`.
    pub fn cleanup_old_counters_at(&mut self, now: u64)
        ensures
            final(self).key() == old(self).key(),
            final(self).send_counter() == old(self).send_counter(),
            final(self).peer_key() == old(self).peer_key(),
            final(self).seen() == pruned(old(self).seen(), now),
    {
        retain_within_horizon(&mut self.recv_counters, now);
    }

    /// Installs `new_key`: the send counter starts over and the replay set is emptied.
    pub fn rotate_key(&mut self, new_key: SessionKey)
        ensures
            final(self).key() == new_key,
            final(self).send_counter() == 0,
            final(self).seen() == Map::<u64, u64>::empty(),
            final(self).peer_key() == old(self).peer_key(),
    {
        broadcast use vstd::std_specs::hash::group_hash_axioms;

        self.session_key = new_key;
        self.send_counter = 0;
        self.recv_counters.clear();
    }

    /// The key material of the session key in use.
    pub fn key_bytes(&self) -> (b: &[u8; 32])
        ensures
            b@ == self.key().bytes(),
    {
        self.session_key.as_bytes()
    }

    /// Whether the key is expired at `now`.
    pub fn is_key_expired_at(&self, now: u64) -> (b: bool)
        ensures
            b == self.key().expired_at(now),
    {
        self.session_key.is_expired_at(now)
    }

    /// Whether the key is expired at the current clock reading.
    pub fn is_key_expired(&self) -> (b: bool)
        ensures
            exists|now: u64| b == #[trigger] self.key().expired_at(now),
    {
        let now = wall_clock_ms();
        let b = self.session_key.is_expired_at(now);
        assert(b == self.key().expired_at(now));
        b
    }

    /// The public key of the peer, when one was given.
    pub fn peer_public_key(&self) -> (k: Option<&[u8]>)
        ensures
            match k {
                Some(bytes) => self.peer_key() == Some(bytes@),
                None => self.peer_key() is None,
            },
    {
        match &self.peer_public_key {
            Some(k) => Some(k.as_slice()),
            None => None,
        }
    }
}

/// Round trip: a message sealed by a channel opens on that channel to the
/// plaintext it was sealed from, provided the key is still alive and the
/// channel has not already observed the counter the message carries.
pub proof fn lemma_encrypt_decrypt_round_trip(
    c0: EncryptedChannel,
    plaintext: Seq<u8>,
    t1: u64,
    c1: EncryptedChannel,
    m: EncryptedMessage,
    t2: u64,
    c2: EncryptedChannel,
    r: Result<Vec<u8>, Error>,
)
    requires
        c0.encrypt_spec(plaintext, t1, c1, Ok(m)),
        c1.decrypt_spec(m, t2, c2, r),
        !c0.key().expired_at(t2),
        !c0.seen().contains_key(c0.send_counter()),
    ensures
        r matches Ok(p) && p@ == plaintext,
{
    lemma_nonce_names_counter(c0.send_counter(), 0);
}

/// Replay rejection: once a message has opened, opening it again on the same
/// channel fails, whatever the clock reads; while the key is alive the
/// failure is the replay error.
pub proof fn lemma_replay_is_rejected(
    c0: EncryptedChannel,
    m: EncryptedMessage,
    t1: u64,
    c1: EncryptedChannel,
    p: Vec<u8>,
    t2: u64,
    c2: EncryptedChannel,
    r: Result<Vec<u8>, Error>,
)
    requires
        c0.decrypt_spec(m, t1, c1, Ok(p)),
        c1.decrypt_spec(m, t2, c2, r),
    ensures
        r is Err,
        c2.seen() == c1.seen(),
        !c0.key().expired_at(t2) ==> (r matches Err(e) && e.is_crypto(reason_replay())),
{
    let counter = counter_of(m.nonce@);
    assert(c0.seen().insert(counter, t1).contains_key(counter));
    assert(within_horizon(t1, t1));
    assert(c1.seen().contains_key(counter));
}

/// Two messages sealed one after the other by one channel carry different
/// nonces, whatever their plaintexts, unless the key was replaced between them.
pub proof fn lemma_successive_nonces_differ(
    c0: EncryptedChannel,
    first_plain: Seq<u8>,
    t1: u64,
    c1: EncryptedChannel,
    m1: EncryptedMessage,
    second_plain: Seq<u8>,
    t2: u64,
    c2: EncryptedChannel,
    m2: EncryptedMessage,
)
    requires
        c0.encrypt_spec(first_plain, t1, c1, Ok(m1)),
        c1.encrypt_spec(second_plain, t2, c2, Ok(m2)),
    ensures
        m1.nonce@ != m2.nonce@,
        m1.wire() != m2.wire(),
{
    lemma_nonce_names_counter(c0.send_counter(), c1.send_counter());
    assert(m1.wire().subrange(0, 12) =~= m1.nonce@);
    assert(m2.wire().subrange(0, 12) =~= m2.nonce@);
}

/// Replay horizon: pruning at `now` keeps every counter observed less than
/// five minutes before `now`, drops every older one, and keeps no counter
/// that was not there.
pub proof fn lemma_replay_horizon(seen: Map<u64, u64>, now: u64, counter: u64)
    ensures
        seen.contains_key(counter) && seen[counter] + REPLAY_HORIZON_MS > now ==> pruned(
            seen,
            now,
        ).contains_key(counter) && pruned(seen, now)[counter] == seen[counter],
        seen.contains_key(counter) && seen[counter] + REPLAY_HORIZON_MS <= now ==> !pruned(
            seen,
            now,
        ).contains_key(counter),
        !seen.contains_key(counter) ==> !pruned(seen, now).contains_key(counter),
{
}

/// Reason of the error returned when a key exchange is used a second time.
pub open spec fn reason_exchange_completed() -> Seq<char> {
    "Key exchange already completed"@
}

/// What two parties of a key exchange agree on.
#[derive(Debug, Clone)]
pub struct SharedSecret {
    bytes: [u8; 32],
}

impl SharedSecret {
    /// The secret.
    pub closed spec fn bytes(&self) -> Seq<u8> {
        self.bytes@
    }

    /// The secret.
    pub fn as_bytes(&self) -> (b: &[u8; 32])
        ensures
            b@ == self.bytes(),
    {
        &self.bytes
    }
}

/// One side of an X25519 key exchange, good for one shared secret.
pub struct KeyExchange {
    secret: Option<[u8; 32]>,
    public_key: [u8; 32],
}

impl KeyExchange {
    /// The secret key, until it is used.
    pub closed spec fn secret(&self) -> Option<Seq<u8>> {
        match self.secret {
            Some(s) => Some(s@),
            None => None,
        }
    }

    /// The public key.
    pub closed spec fn public(&self) -> Seq<u8> {
        self.public_key@
    }

    /// A key exchange on `secret`.
    pub fn from_secret(secret: [u8; 32]) -> (k: Self)
        ensures
            k.secret() == Some(secret@),
            k.secret()->0.len() == 32,
            k.public() == x25519_public_key(secret@),
    {
        let public_key = x25519_public(&secret);
        Self { secret: Some(secret), public_key }
    }

    /// A key exchange on a secret key drawn at random.
    pub fn new() -> (k: Self)
        ensures
            k.secret() is Some,
            k.secret()->0.len() == 32,
            k.public() == x25519_public_key(k.secret()->0),
    {
        Self::from_secret(os_random_bytes_32())
    }

    /// The public key.
    pub fn public_key(&self) -> (p: &[u8; 32])
        ensures
            p@ == self.public(),
    {
        &self.public_key
    }

    /// The public key in base64.
    pub fn public_key_base64(&self) -> (s: String)
        ensures
            s@ == base64_standard(self.public()),
    {
        base64_encode(self.public_key.as_slice())
    }

    /// Derives the shared secret with the owner of `peer_public` and uses
    /// the secret key up. A second call fails.
    pub fn compute_shared_secret(
        &mut self,
        peer_public: &[u8; 32],
    ) -> (r: Result<SharedSecret, Error>)
        ensures
            final(self).secret() is None,
            final(self).public() == old(self).public(),
            match r {
                Ok(shared) => old(self).secret() is Some && agrees(
                    old(self).secret()->0,
                    peer_public@,
                    shared.bytes(),
                ),
                Err(e) => old(self).secret() is None && e.is_crypto(reason_exchange_completed()),
            },
    {
        let secret = self.secret;
        self.secret = None;
        match secret {
            Some(secret) => Ok(SharedSecret { bytes: x25519_shared(&secret, peer_public) }),
            None => Err(Error::crypto("Key exchange already completed")),
        }
    }
}

/// The secret key of a key exchange, while it has one, has 32 bytes.
pub proof fn lemma_secret_has_32_bytes(k: KeyExchange)
    ensures
        k.secret() matches Some(secret) ==> secret.len() == 32,
{
}

/// Two fresh key exchanges agree: what each derives from its own secret key
/// and the public key of the other is the same shared secret.
pub proof fn lemma_fresh_exchanges_agree(
    a: KeyExchange,
    b: KeyExchange,
    shared_a: Seq<u8>,
    shared_b: Seq<u8>,
)
    requires
        a.secret() is Some,
        b.secret() is Some,
        a.public() == x25519_public_key(a.secret()->0),
        b.public() == x25519_public_key(b.secret()->0),
        agrees(a.secret()->0, b.public(), shared_a),
        agrees(b.secret()->0, a.public(), shared_b),
    ensures
        shared_a == shared_b,
{
    lemma_secret_has_32_bytes(a);
    lemma_secret_has_32_bytes(b);
}

impl Default for KeyExchange {
    fn default() -> (k: Self)
        ensures
            k.secret() is Some,
            k.secret()->0.len() == 32,
            k.public() == x25519_public_key(k.secret()->0),
    {
        Self::new()
    }
}

/// The bytes of the session key of a room from a shared secret:
/// HKDF-SHA256 without salt over the shared secret, with the room id as info.
pub open spec fn room_key_of(shared_secret: Seq<u8>, room_id: Seq<char>) -> Seq<u8> {
    hkdf_sha256(None, shared_secret, encode_utf8(room_id))
}

/// Key agreement is symmetric: for secret keys of 32 bytes, what A derives
/// from its secret key and B's public key is what B derives from its secret key and A's public key, and
/// the session keys that the two derive from it for one room have the same
/// bytes.
pub proof fn lemma_key_agreement_is_symmetric(
    a: Seq<u8>,
    b: Seq<u8>,
    shared_a: Seq<u8>,
    shared_b: Seq<u8>,
    room_id: Seq<char>,
)
    requires
        a.len() == 32,
        b.len() == 32,
        agrees(a, x25519_public_key(b), shared_a),
        agrees(b, x25519_public_key(a), shared_b),
    ensures
        shared_a == shared_b,
        room_key_of(shared_a, room_id) == room_key_of(shared_b, room_id),
{
}

/// The session key of a room from a shared secret, minted at the current
/// clock reading with the default lifetime.
pub fn derive_session_key_from_shared_secret(
    shared_secret: &SharedSecret,
    room_id: &str,
) -> (k: SessionKey)
    ensures
        k.bytes() == room_key_of(shared_secret.bytes(), room_id@),
        k.lifetime() == DEFAULT_KEY_LIFETIME_MS,
{
    let key = hkdf_expand_32(None, shared_secret.bytes.as_slice(), room_id.as_bytes());
    SessionKey::new(key)
}

/// A session key of thirty-two bytes drawn at random from the operating
/// system, minted at the current clock reading with the default lifetime.
pub fn generate_session_key() -> (k: SessionKey)
    ensures
        k.lifetime() == DEFAULT_KEY_LIFETIME_MS,
{
    SessionKey::new(os_random_bytes_32())
}

/// Thirty-two bytes drawn at random.
pub fn generate_ephemeral_key() -> (key: [u8; 32]) {
    random_bytes_32()
}

/// A key from a private key, a peer's public key and a room id: the SHA-256
/// digest of the three, one after the other.
pub fn derive_session_key(
    local_private: &[u8; 32],
    remote_public: &[u8; 32],
    room_id: &str,
) -> (key: [u8; 32])
    ensures
        key@ == sha256(local_private@ + remote_public@ + encode_utf8(room_id@)),
{
    let mut data: Vec<u8> = Vec::new();
    data.extend_from_slice(local_private.as_slice());
    data.extend_from_slice(remote_public.as_slice());
    data.extend_from_slice(room_id.as_bytes());
    assert(data@ =~= local_private@ + remote_public@ + encode_utf8(room_id@));
    sha256_digest(data.as_slice())
}

/// The upper-case form of an ASCII letter; any other character unchanged.
pub open spec fn ascii_upper(c: char) -> char {
    if 'a' <= c <= 'z' {
        ((c as u8) - 32) as char
    } else {
        c
    }
}

/// A text in groups of `group` characters with `sep` between two groups,
/// its ASCII letters in upper case.
pub open spec fn grouped_upper(text: Seq<char>, group: int, sep: char) -> Seq<char>
    recommends
        group > 0,
    decreases text.len(),
{
    if group <= 0 || text.len() <= group {
        text.map_values(|c: char| ascii_upper(c))
    } else {
        text.subrange(0, group).map_values(|c: char| ascii_upper(c)) + seq![sep] + grouped_upper(
            text.subrange(group, text.len() as int),
            group,
            sep,
        )
    }
}

/// Writes `text` in groups of `group` characters with `sep` between two
/// groups, its ASCII letters in upper case.
pub fn group_upper(text: &[char], group: usize, sep: char) -> (out: Vec<char>)
    requires
        group > 0,
    ensures
        out@ == grouped_upper(text@, group as int, sep),
{
    let mut out: Vec<char> = Vec::new();
    let mut i: usize = 0;
    let ghost mut done: Seq<char> = Seq::empty();
    assert(text@.subrange(0, text@.len() as int) =~= text@);
    while text.len() - i > group
        invariant
            i <= text@.len(),
            group > 0,
            out@ == done,
            grouped_upper(text@, group as int, sep) == done + grouped_upper(
                text@.subrange(i as int, text@.len() as int),
                group as int,
                sep,
            ),
        decreases text@.len() - i,
    {
        let ghost rest = text@.subrange(i as int, text@.len() as int);
        let ghost start = out@;
        let mut k: usize = 0;
        while k < group
            invariant
                k <= group,
                i + group < text@.len(),
                text@.len() <= usize::MAX,
                rest == text@.subrange(i as int, text@.len() as int),
                out@ == start + rest.subrange(0, k as int).map_values(|c: char| ascii_upper(c)),
            decreases group - k,
        {
            let c = text[i + k];
            let u = if 'a' <= c && c <= 'z' {
                ((c as u8) - 32) as char
            } else {
                c
            };
            out.push(u);
            k += 1;
            assert(out@ =~= start + rest.subrange(0, k as int).map_values(|c: char| ascii_upper(c)));
        }
        out.push(sep);
        proof {
            let tail = rest.subrange(group as int, rest.len() as int);
            assert(tail =~= text@.subrange(i + group, text@.len() as int));
            done = done + rest.subrange(0, group as int).map_values(|c: char| ascii_upper(c)) + seq![
                sep,
            ];
            assert(out@ =~= done);
            assert(grouped_upper(text@, group as int, sep) =~= done + grouped_upper(
                tail,
                group as int,
                sep,
            ));
        }
        i += group;
    }
    let ghost rest = text@.subrange(i as int, text@.len() as int);
    let ghost start = out@;
    let mut k: usize = i;
    while k < text.len()
        invariant
            i <= k <= text@.len(),
            rest == text@.subrange(i as int, text@.len() as int),
            out@ == start + rest.subrange(0, k - i).map_values(|c: char| ascii_upper(c)),
        decreases text@.len() - k,
    {
        let c = text[k];
        let u = if 'a' <= c && c <= 'z' {
            ((c as u8) - 32) as char
        } else {
            c
        };
        out.push(u);
        k += 1;
        assert(out@ =~= start + rest.subrange(0, k - i).map_values(|c: char| ascii_upper(c)));
    }
    assert(rest.subrange(0, k - i) =~= rest);
    out
}

/// The fingerprint of a public key: the first eight bytes of its SHA-256
/// digest in hexadecimal, in upper case, with a colon after every two digits
/// but the last.
pub open spec fn fingerprint_of(public_key: Seq<u8>) -> Seq<char> {
    grouped_upper(hex_lower(sha256(public_key).subrange(0, 8)), 2, ':')
}

/// Computes the fingerprint of a public key.
pub fn compute_fingerprint(public_key: &[u8]) -> (fingerprint: String)
    ensures
        fingerprint@ == fingerprint_of(public_key@),
{
    let hash = sha256_digest(public_key);
    let hex = hex_encode(slice_subrange(hash.as_slice(), 0, 8));
    format_fingerprint(hex.as_str())
}

fn format_fingerprint(hex: &str) -> (fingerprint: String)
    ensures
        fingerprint@ == grouped_upper(hex@, 2, ':'),
{
    let chars = chars_of(hex);
    let out = group_upper(chars.as_slice(), 2, ':');
    string_of(out.as_slice())
}

} // verus!