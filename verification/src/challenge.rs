//! Challenges by which one peer asks another to prove its bandwidth, its
//! latency or its computing power.

use crate::primitives::{hex_encode, hex_lower, sha256, sha256_digest};
use crate::random::random_u64;
use crate::text::{chars_of, decimal, push_decimal, string_of};
use crate::time::wall_clock_secs;
use vstd::bytes::{spec_u64_to_le_bytes, u64_to_le_bytes};
use vstd::prelude::*;
use vstd::string::StringSliceAdditionalSpecFns;
use vstd::utf8::encode_utf8;

verus! {

/// What a challenge asks for.
#[derive(Debug, Clone, Copy, PartialEq, Eq, Structural)]
pub enum ChallengeType {
    /// To send `size_bytes` bytes within `max_time_ms` milliseconds.
    Bandwidth { size_bytes: u64, max_time_ms: u32 },
    /// To answer within `target_ms` milliseconds.
    Latency { target_ms: u32 },
    /// To do work of the given difficulty.
    Compute { difficulty: u8 },
}

impl ChallengeType {
    /// One mebibyte within five seconds.
    pub fn bandwidth_1mb() -> (t: Self)
        ensures
            t == (ChallengeType::Bandwidth { size_bytes: 1_048_576, max_time_ms: 5000 }),
    {
        ChallengeType::Bandwidth { size_bytes: 1_048_576, max_time_ms: 5000 }
    }

    /// Ten mebibytes within ten seconds.
    pub fn bandwidth_10mb() -> (t: Self)
        ensures
            t == (ChallengeType::Bandwidth { size_bytes: 10_485_760, max_time_ms: 10000 }),
    {
        ChallengeType::Bandwidth { size_bytes: 10_485_760, max_time_ms: 10000 }
    }

    /// An answer within a hundred milliseconds.
    pub fn latency_default() -> (t: Self)
        ensures
            t == (ChallengeType::Latency { target_ms: 100 }),
    {
        ChallengeType::Latency { target_ms: 100 }
    }
}

/// A challenge from one peer to another. The times are in seconds since the
/// Unix epoch.
#[derive(Debug, Clone)]
pub struct Challenge {
    pub id: String,
    pub challenger_peer_id: String,
    pub target_peer_id: String,
    pub challenge_type: ChallengeType,
    pub data_hash: String,
    pub nonce: u64,
    pub created_at: u64,
    pub expires_at: u64,
}

/// A number of 64 bits byte by byte, most significant byte first.
pub open spec fn be64(n: u64) -> Seq<u8> {
    spec_u64_to_le_bytes(n).reverse()
}

/// The id of a challenge: the two peer ids and the nonce in decimal, with a
/// hyphen between them.
pub open spec fn challenge_id_of(challenger: Seq<char>, target: Seq<char>, nonce: u64) -> Seq<char> {
    challenger + seq!['-'] + target + seq!['-'] + decimal(nonce as nat)
}

/// The data hash of a challenge: the SHA-256 digest of the two peer ids and
/// the nonce, most significant byte first, in hexadecimal.
pub open spec fn data_hash_of(challenger: Seq<char>, target: Seq<char>, nonce: u64) -> Seq<char> {
    hex_lower(sha256(encode_utf8(challenger) + encode_utf8(target) + be64(nonce)))
}

/// When a challenge made at `now` with `timeout_secs` to answer expires: at
/// the end of the timeout, or at the last instant that there is where the
/// timeout leads beyond it.
pub open spec fn expiry_of(now: u64, timeout_secs: u64) -> u64 {
    if now + timeout_secs > u64::MAX {
        u64::MAX
    } else {
        (now + timeout_secs) as u64
    }
}

/// The data with which a challenge is answered: for a bandwidth challenge as
/// many bytes as it asks for, which are the 32 bytes of the SHA-256 digest of
/// the data hash over and over; nothing for any other challenge.
pub open spec fn response_data_of(challenge_type: ChallengeType, data_hash: Seq<char>) -> Seq<u8> {
    match challenge_type {
        ChallengeType::Bandwidth { size_bytes, max_time_ms } => Seq::new(
            (size_bytes as usize) as nat,
            |i: int| sha256(encode_utf8(data_hash))[i % 32],
        ),
        _ => Seq::empty(),
    }
}

fn be_bytes(n: u64) -> (bytes: Vec<u8>)
    ensures
        bytes@ == be64(n),
{
    let le = u64_to_le_bytes(n);
    let mut bytes: Vec<u8> = Vec::new();
    let mut i: usize = 0;
    while i < le.len()
        invariant
            i <= le@.len(),
            le@ == spec_u64_to_le_bytes(n),
            bytes@.len() == i,
            forall|j: int| 0 <= j < i ==> bytes@[j] == le@[le@.len() - 1 - j],
        decreases le@.len() - i,
    {
        bytes.push(le[le.len() - 1 - i]);
        i += 1;
    }
    assert(bytes@ =~= be64(n));
    bytes
}

/// Makes the data hash of a challenge.
pub fn generate_data_hash(challenger: &str, target: &str, nonce: u64) -> (hash: String)
    ensures
        hash@ == data_hash_of(challenger@, target@, nonce),
{
    let mut data: Vec<u8> = Vec::new();
    data.extend_from_slice(challenger.as_bytes());
    data.extend_from_slice(target.as_bytes());
    let tail = be_bytes(nonce);
    data.extend_from_slice(tail.as_slice());
    assert(data@ =~= encode_utf8(challenger@) + encode_utf8(target@) + be64(nonce));
    let digest = sha256_digest(data.as_slice());
    hex_encode(digest.as_slice())
}

impl Challenge {
    /// The challenge with nonce `nonce` that `challenger_peer_id` makes to
    /// `target_peer_id` at `now`, to be answered within `timeout_secs`
    /// seconds.
    pub fn new_with(
        challenger_peer_id: String,
        target_peer_id: String,
        challenge_type: ChallengeType,
        timeout_secs: u64,
        nonce: u64,
        now: u64,
    ) -> (c: Self)
        ensures
            c.id@ == challenge_id_of(challenger_peer_id@, target_peer_id@, nonce),
            c.challenger_peer_id == challenger_peer_id,
            c.target_peer_id == target_peer_id,
            c.challenge_type == challenge_type,
            c.data_hash@ == data_hash_of(challenger_peer_id@, target_peer_id@, nonce),
            c.nonce == nonce,
            c.created_at == now,
            c.expires_at == expiry_of(now, timeout_secs),
    {
        let data_hash = generate_data_hash(
            challenger_peer_id.as_str(),
            target_peer_id.as_str(),
            nonce,
        );
        let mut id = chars_of(challenger_peer_id.as_str());
        id.push('-');
        let target = chars_of(target_peer_id.as_str());
        let ghost head = id@;
        let mut i: usize = 0;
        while i < target.len()
            invariant
                i <= target@.len(),
                id@ == head + target@.subrange(0, i as int),
            decreases target@.len() - i,
        {
            id.push(target[i]);
            i += 1;
            assert(target@.subrange(0, i as int) =~= target@.subrange(0, i - 1).push(target@[i - 1]));
        }
        assert(target@.subrange(0, target@.len() as int) =~= target@);
        id.push('-');
        push_decimal(&mut id, nonce);
        assert(id@ =~= challenge_id_of(challenger_peer_id@, target_peer_id@, nonce));
        let expires_at = match now.checked_add(timeout_secs) {
            Some(t) => t,
            None => u64::MAX,
        };
        Self {
            id: string_of(id.as_slice()),
            challenger_peer_id,
            target_peer_id,
            challenge_type,
            data_hash,
            nonce,
            created_at: now,
            expires_at,
        }
    }

    /// The challenge that `challenger_peer_id` makes to `target_peer_id` at
    /// the current clock reading with a nonce drawn at random, to be
    /// answered within `timeout_secs` seconds.
    pub fn new(
        challenger_peer_id: String,
        target_peer_id: String,
        challenge_type: ChallengeType,
        timeout_secs: u64,
    ) -> (c: Self)
        ensures
            c.id@ == challenge_id_of(challenger_peer_id@, target_peer_id@, c.nonce),
            c.challenger_peer_id == challenger_peer_id,
            c.target_peer_id == target_peer_id,
            c.challenge_type == challenge_type,
            c.data_hash@ == data_hash_of(challenger_peer_id@, target_peer_id@, c.nonce),
            c.expires_at == expiry_of(c.created_at, timeout_secs),
    {
        let nonce = random_u64();
        let now = wall_clock_secs();
        Self::new_with(challenger_peer_id, target_peer_id, challenge_type, timeout_secs, nonce, now)
    }

    /// A challenge is expired from the instant of its expiry on.
    pub open spec fn expired_at(&self, now: u64) -> bool {
        now >= self.expires_at
    }

    /// Whether the challenge is expired at `now`.
    pub fn is_expired_at(&self, now: u64) -> (b: bool)
        ensures
            b == self.expired_at(now),
    {
        now >= self.expires_at
    }

    /// Whether the challenge is expired at the current clock reading.
    pub fn is_expired(&self) -> (b: bool)
        ensures
            exists|now: u64| b == #[trigger] self.expired_at(now),
    {
        let now = wall_clock_secs();
        let b = self.is_expired_at(now);
        assert(b == self.expired_at(now));
        b
    }

    /// Seconds left at `now` to answer the challenge.
    pub open spec fn remaining_at(&self, now: u64) -> u64 {
        if now >= self.expires_at {
            0
        } else {
            (self.expires_at - now) as u64
        }
    }

    /// Seconds left at `now` to answer the challenge.
    pub fn time_remaining_secs_at(&self, now: u64) -> (secs: u64)
        ensures
            secs == self.remaining_at(now),
    {
        if now >= self.expires_at {
            0
        } else {
            self.expires_at - now
        }
    }

    /// Seconds left at the current clock reading to answer the challenge.
    pub fn time_remaining_secs(&self) -> (secs: u64)
        ensures
            exists|now: u64| secs == #[trigger] self.remaining_at(now),
    {
        let now = wall_clock_secs();
        let secs = self.time_remaining_secs_at(now);
        assert(secs == self.remaining_at(now));
        secs
    }

    /// The data with which the challenge is answered.
    pub fn generate_response_data(&self) -> (data: Vec<u8>)
        ensures
            data@ == response_data_of(self.challenge_type, self.data_hash@),
    {
        let mut data: Vec<u8> = Vec::new();
        match self.challenge_type {
            ChallengeType::Bandwidth { size_bytes, max_time_ms } => {
                let seed = sha256_digest(self.data_hash.as_str().as_bytes());
                let n = size_bytes as usize;
                let mut i: usize = 0;
                while i < n
                    invariant
                        i <= n,
                        data@.len() == i,
                        seed@ == sha256(encode_utf8(self.data_hash@)),
                        forall|j: int| 0 <= j < i ==> data@[j] == seed@[j % 32],
                    decreases n - i,
                {
                    data.push(seed[i % 32]);
                    i += 1;
                }
                assert(data@ =~= response_data_of(self.challenge_type, self.data_hash@));
            },
            _ => {
                assert(data@ =~= response_data_of(self.challenge_type, self.data_hash@));
            },
        }
        data
    }
}

/// A challenge never has more time left later than it had earlier, and none
/// once it is expired.
pub proof fn lemma_time_runs_out(c: Challenge, earlier: u64, later: u64)
    requires
        earlier <= later,
    ensures
        c.remaining_at(later) <= c.remaining_at(earlier),
        c.expired_at(earlier) ==> c.expired_at(later),
        c.expired_at(later) <==> c.remaining_at(later) == 0,
{
}

} // verus!
