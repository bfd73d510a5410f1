//! The identity of a peer: a signing key, the peer id that follows from it,
//! and signatures.

use crate::error::Error;
use crate::primitives::{
    ed25519_public, ed25519_public_key, ed25519_sign, ed25519_signature, ed25519_verifies,
    ed25519_verify, hex_encode, hex_lower, multibase_encode, multibase_encoded, sha256,
    sha256_digest,
};
use crate::random::os_random_bytes_32;
use crate::text::{chars_of, string_of};
use vstd::prelude::*;
use vstd::slice::slice_subrange;
use vstd::string::StringExecFns;
use vstd::utf8::encode_utf8;

verus! {

/// What every peer id begins with.
pub const PEER_ID_PREFIX: &'static str = "12D3KooW";

/// What is told of a peer to others.
#[derive(Debug, Clone)]
pub struct PeerInfo {
    pub peer_id: String,
    pub display_name: Option<String>,
    pub public_key: String,
}

/// A signature over a message.
#[derive(Debug, Clone, Copy)]
pub struct Signature {
    bytes: [u8; 64],
}

impl Signature {
    /// The sixty-four bytes of the signature.
    pub closed spec fn bytes(&self) -> Seq<u8> {
        self.bytes@
    }

    /// The signature of sixty-four bytes.
    pub fn from_bytes(bytes: [u8; 64]) -> (s: Self)
        ensures
            s.bytes() == bytes@,
    {
        Self { bytes }
    }

    /// The sixty-four bytes of the signature.
    pub fn to_bytes(&self) -> (b: [u8; 64])
        ensures
            b@ == self.bytes(),
    {
        self.bytes
    }
}

/// The peer id of a public key: the prefix, then the first twenty bytes of
/// the SHA-256 digest of the key in multibase, base32 in lower case.
pub open spec fn peer_id_of(public_key: Seq<u8>) -> Seq<char> {
    "12D3KooW"@ + multibase_encoded(true, sha256(public_key).subrange(0, 20))
}

/// Reason of the error returned for key bytes of the wrong length.
pub open spec fn reason_invalid_key_bytes() -> Seq<char> {
    "Invalid key bytes"@
}

/// A long-lived signing key with an optional display name.
#[derive(Debug, Clone)]
pub struct Identity {
    signing_key: [u8; 32],
    display_name: Option<String>,
}

impl Identity {
    /// The private signing key.
    pub closed spec fn secret(&self) -> Seq<u8> {
        self.signing_key@
    }

    /// The display name, if one was set.
    pub closed spec fn name(&self) -> Option<Seq<char>> {
        match self.display_name {
            Some(n) => Some(n@),
            None => None,
        }
    }

    /// The public key.
    pub open spec fn public(&self) -> Seq<u8> {
        ed25519_public_key(self.secret())
    }

    /// An identity on a key drawn at random, without display name.
    pub fn generate() -> (r: Result<Self, Error>)
        ensures
            r matches Ok(id) && id.name() is None,
    {
        Ok(Self { signing_key: os_random_bytes_32(), display_name: None })
    }

    /// The identity on a given private key, without display name. Anything
    /// but thirty-two bytes is refused.
    pub fn from_bytes(bytes: &[u8]) -> (r: Result<Self, Error>)
        ensures
            match r {
                Ok(id) => bytes@.len() == 32 && id.secret() == bytes@ && id.name() is None,
                Err(e) => bytes@.len() != 32 && e.is_identity(reason_invalid_key_bytes()),
            },
    {
        if bytes.len() != 32 {
            return Err(Error::identity("Invalid key bytes"));
        }
        let mut key = [0u8; 32];
        let mut i: usize = 0;
        while i < 32
            invariant
                i <= 32,
                bytes@.len() == 32,
                forall|j: int| 0 <= j < i ==> key@[j] == bytes@[j],
            decreases 32 - i,
        {
            key[i] = bytes[i];
            i += 1;
        }
        assert(key@ =~= bytes@);
        Ok(Self { signing_key: key, display_name: None })
    }

    /// The private signing key.
    pub fn to_bytes(&self) -> (b: [u8; 32])
        ensures
            b@ == self.secret(),
    {
        self.signing_key
    }

    /// The public key.
    pub fn public_key(&self) -> (k: [u8; 32])
        ensures
            k@ == self.public(),
    {
        ed25519_public(&self.signing_key)
    }

    /// The peer id: a function of the public key alone.
    pub fn peer_id(&self) -> (id: String)
        ensures
            id@ == peer_id_of(self.public()),
    {
        let public = self.public_key();
        let hash = sha256_digest(public.as_slice());
        let encoded = multibase_encode(true, slice_subrange(hash.as_slice(), 0, 20));
        let mut id = "12D3KooW".to_owned();
        id.append(encoded.as_str());
        id
    }

    /// The public key in multibase, base64.
    pub fn public_key_base64(&self) -> (s: String)
        ensures
            s@ == multibase_encoded(false, self.public()),
    {
        let public = self.public_key();
        multibase_encode(false, public.as_slice())
    }

    /// Gives the identity a display name; the key stays.
    pub fn set_display_name(&mut self, name: String)
        ensures
            final(self).secret() == old(self).secret(),
            final(self).name() == Some(name@),
    {
        self.display_name = Some(name);
    }

    /// The display name, if one was given.
    pub fn display_name(&self) -> (n: Option<&str>)
        ensures
            match n {
                Some(s) => self.name() == Some(s@),
                None => self.name() is None,
            },
    {
        match &self.display_name {
            Some(n) => Some(n.as_str()),
            None => None,
        }
    }

    /// Signs `message`. The signature verifies under the public key of this
    /// identity.
    pub fn sign(&self, message: &[u8]) -> (s: Signature)
        ensures
            s.bytes() == ed25519_signature(self.secret(), message@),
            ed25519_verifies(self.public(), message@, s.bytes()),
    {
        Signature { bytes: ed25519_sign(&self.signing_key, message) }
    }

    /// Whether `signature` is a signature over `message` under the public
    /// key of this identity.
    pub fn verify(&self, message: &[u8], signature: &Signature) -> (ok: bool)
        ensures
            ok == ed25519_verifies(self.public(), message@, signature.bytes()),
    {
        let public = self.public_key();
        ed25519_verify(&public, message, &signature.bytes)
    }

    /// What is told of this identity to others.
    pub fn to_peer_info(&self) -> (info: PeerInfo)
        ensures
            info.peer_id@ == peer_id_of(self.public()),
            crate::protocol::opt_view(info.display_name) == self.name(),
            info.public_key@ == multibase_encoded(false, self.public()),
    {
        PeerInfo {
            peer_id: self.peer_id(),
            display_name: match &self.display_name {
                Some(n) => Some(n.clone()),
                None => None,
            },
            public_key: self.public_key_base64(),
        }
    }
}

/// A peer id is a function of the public key: two identities on the same
/// private key have the same peer id, whatever their display names.
pub proof fn lemma_peer_id_follows_key(a: Identity, b: Identity)
    requires
        a.secret() == b.secret(),
    ensures
        peer_id_of(a.public()) == peer_id_of(b.public()),
{
}

/// The fingerprint of a public key text for reading out: the first eight
/// bytes of the SHA-256 digest of the text in hexadecimal, in upper case,
/// with a blank after every four digits but the last.
pub open spec fn spoken_fingerprint(public_key: Seq<char>) -> Seq<char> {
    crate::crypto::grouped_upper(hex_lower(sha256(encode_utf8(public_key)).subrange(0, 8)), 4, ' ')
}

impl PeerInfo {
    /// The fingerprint of the public key as it is read out.
    pub fn fingerprint(&self) -> (f: String)
        ensures
            f@ == spoken_fingerprint(self.public_key@),
    {
        let hash = sha256_digest(self.public_key.as_str().as_bytes());
        let hex = hex_encode(slice_subrange(hash.as_slice(), 0, 8));
        let chars = chars_of(hex.as_str());
        let out = crate::crypto::group_upper(chars.as_slice(), 4, ' ');
        string_of(out.as_slice())
    }
}

} // verus!
