//! What is taken on trust of the cryptographic and the encoding crates:
//! authenticated encryption, key derivation, hashing, key agreement,
//! signatures, and text encodings of bytes.

use base64::Engine;
use chacha20poly1305::aead::{Aead, KeyInit};
use ed25519_dalek::{Signer, Verifier};
use sha2::Digest;
use vstd::prelude::*;

verus! {

/// Length in bytes of a symmetric key, a digest and a public key.
pub const KEY_LEN: usize = 32;

/// Length in bytes of an AEAD nonce.
pub const NONCE_LEN: usize = 12;

/// Length in bytes of the authentication tag that sealing appends.
pub const TAG_LEN: usize = 16;

/// Sealing refuses a plaintext of this many 64-byte blocks or more.
pub const AEAD_MAX_BLOCKS: usize = 0xFFFF_FFFF;

/// What ChaCha20-Poly1305 sealing of `plaintext` under `key` and `nonce`, with
/// no associated data, yields: the ciphertext followed by the tag.
pub uninterp spec fn sealed(key: Seq<u8>, nonce: Seq<u8>, plaintext: Seq<u8>) -> Seq<u8>;

/// What ChaCha20-Poly1305 opening of `ciphertext` under `key` and `nonce`
/// yields: the plaintext, or nothing when the tag does not verify.
pub uninterp spec fn opened(key: Seq<u8>, nonce: Seq<u8>, ciphertext: Seq<u8>) -> Option<Seq<u8>>;

/// The 32 bytes that HKDF-SHA256 extract-then-expand derives.
pub uninterp spec fn hkdf_sha256(salt: Option<Seq<u8>>, ikm: Seq<u8>, info: Seq<u8>) -> Seq<u8>;

/// The SHA-256 digest of `data`.
pub uninterp spec fn sha256(data: Seq<u8>) -> Seq<u8>;

/// The X25519 public key of a secret key.
pub uninterp spec fn x25519_public_key(secret: Seq<u8>) -> Seq<u8>;

/// The X25519 shared secret of a secret key and a peer's public key.
pub uninterp spec fn x25519_shared_secret(secret: Seq<u8>, peer_public: Seq<u8>) -> Seq<u8>;

/// The Ed25519 public key of a secret key.
pub uninterp spec fn ed25519_public_key(secret: Seq<u8>) -> Seq<u8>;

/// The Ed25519 signature of a message under a secret key.
pub uninterp spec fn ed25519_signature(secret: Seq<u8>, message: Seq<u8>) -> Seq<u8>;

/// Whether a signature verifies for a message under an Ed25519 public key.
pub uninterp spec fn ed25519_verifies(public: Seq<u8>, message: Seq<u8>, signature: Seq<u8>) -> bool;

/// Base64 text of `data` in the standard alphabet with padding.
pub uninterp spec fn base64_standard(data: Seq<u8>) -> Seq<char>;

/// The bytes that a base64 text in the standard alphabet with padding
/// denotes, if it denotes any.
pub uninterp spec fn base64_standard_decoded(text: Seq<char>) -> Option<Seq<u8>>;

/// Multibase text of `data`: in lower-case base32 without padding where
/// `lower32` holds, in base64 without padding otherwise; each behind the
/// one-character code of its base.
pub uninterp spec fn multibase_encoded(lower32: bool, data: Seq<u8>) -> Seq<char>;

/// Whether `shared` is what `secret` and `peer_public` agree on: it is their
/// shared secret, and it is the shared secret of any secret key of 32 bytes
/// that `peer_public` belongs to with the public key of `secret`.
pub open spec fn agrees(secret: Seq<u8>, peer_public: Seq<u8>, shared: Seq<u8>) -> bool {
    &&& shared == x25519_shared_secret(secret, peer_public)
    &&& forall|other: Seq<u8>|
        other.len() == 32 && peer_public == #[trigger] x25519_public_key(other) ==> shared
            == x25519_shared_secret(
            other,
            x25519_public_key(secret),
        )
}

/// True when a plaintext of `len` bytes is short enough to be sealed.
pub open spec fn sealable(len: nat) -> bool {
    len / 64 < AEAD_MAX_BLOCKS
}

/// The two lower-case hexadecimal digits of a byte.
pub open spec fn hex_digit(nibble: u8) -> char {
    if nibble < 10 {
        (('0' as u8) + nibble) as char
    } else {
        (('a' as u8) + (nibble - 10) as u8) as char
    }
}

/// Lower-case hexadecimal text of `data`, two digits per byte.
pub open spec fn hex_lower(data: Seq<u8>) -> Seq<char>
    decreases data.len(),
{
    if data.len() == 0 {
        Seq::empty()
    } else {
        hex_lower(data.drop_last()).push(hex_digit(data.last() / 16)).push(
            hex_digit(data.last() % 16),
        )
    }
}

/// Whether `c` is a digit or one of the letters `a` to `f`.
pub open spec fn is_lower_hex(c: char) -> bool {
    ('0' <= c && c <= '9') || ('a' <= c && c <= 'f')
}

/// The hexadecimal text of bytes has two characters for each byte, each a
/// digit or one of the letters `a` to `f`.
pub proof fn lemma_hex_lower_shape(data: Seq<u8>)
    ensures
        hex_lower(data).len() == 2 * data.len(),
        forall|i: int| 0 <= i < hex_lower(data).len() ==> is_lower_hex(#[trigger] hex_lower(data)[i]),
    decreases data.len(),
{
    if data.len() > 0 {
        lemma_hex_lower_shape(data.drop_last());
        let high = data.last() / 16;
        let low = data.last() % 16;
        assert(is_lower_hex(hex_digit(high)));
        assert(is_lower_hex(hex_digit(low)));
    }
}

/// Calls `ChaCha20Poly1305::encrypt` of the `chacha20poly1305` crate with a
/// cipher built from `key`. The contract claims: the call succeeds exactly on
/// plaintexts under the block limit; the output is the sealed text, 16 bytes
/// longer than the input; and opening that output under the same key and
/// nonce gives the plaintext back.
#[verifier::external_body]
pub(crate) fn aead_seal(
    key: &[u8; 32],
    nonce: &[u8; 12],
    plaintext: &[u8],
) -> (out: Option<Vec<u8>>)
    ensures
        out is Some <==> sealable(plaintext@.len()),
        out matches Some(c) ==> c@ == sealed(key@, nonce@, plaintext@),
        out matches Some(c) ==> c@.len() == plaintext@.len() + TAG_LEN,
        out matches Some(c) ==> opened(key@, nonce@, c@) == Some(plaintext@),
{
    let cipher = chacha20poly1305::ChaCha20Poly1305::new(key.into());
    cipher.encrypt(nonce.into(), plaintext).ok()
}

/// Calls `ChaCha20Poly1305::decrypt` of the `chacha20poly1305` crate with a
/// cipher built from `key`. The contract claims: the result is what opening
/// yields, and a recovered plaintext is 16 bytes shorter than the input.
#[verifier::external_body]
pub(crate) fn aead_open(
    key: &[u8; 32],
    nonce: &[u8; 12],
    ciphertext: &[u8],
) -> (out: Option<Vec<u8>>)
    ensures
        out is Some <==> opened(key@, nonce@, ciphertext@) is Some,
        out matches Some(p) ==> opened(key@, nonce@, ciphertext@) == Some(p@),
        out matches Some(p) ==> p@.len() + TAG_LEN == ciphertext@.len(),
{
    let cipher = chacha20poly1305::ChaCha20Poly1305::new(key.into());
    cipher.decrypt(nonce.into(), ciphertext).ok()
}

/// Calls `Hkdf::<Sha256>::new` and `expand` of the `hkdf` crate for a 32-byte
/// output, a length that `expand` never refuses. The contract claims that the
/// output is the HKDF-SHA256 value of the three inputs.
#[verifier::external_body]
pub(crate) fn hkdf_expand_32(salt: Option<&[u8]>, ikm: &[u8], info: &[u8]) -> (okm: [u8; 32])
    ensures
        okm@ == hkdf_sha256(
            match salt {
                Some(s) => Some(s@),
                None => None,
            },
            ikm@,
            info@,
        ),
{
    let mut okm = [0u8; 32];
    let _ = hkdf::Hkdf::<sha2::Sha256>::new(salt, ikm).expand(info, &mut okm);
    okm
}

/// Calls `Sha256::digest` of the `sha2` crate. The contract claims that the
/// output is the SHA-256 digest of the input.
#[verifier::external_body]
pub(crate) fn sha256_digest(data: &[u8]) -> (digest: [u8; 32])
    ensures
        digest@ == sha256(data@),
{
    sha2::Sha256::digest(data).into()
}

/// Calls `hex::encode` of the `hex` crate. The contract claims that the output
/// is the lower-case hexadecimal text of the input, two digits per byte.
#[verifier::external_body]
pub(crate) fn hex_encode(data: &[u8]) -> (text: String)
    ensures
        text@ == hex_lower(data@),
{
    hex::encode(data)
}

/// Calls `PublicKey::from(&StaticSecret)` of the `x25519_dalek` crate. The
/// contract claims that the output is the public key of the secret key.
#[verifier::external_body]
pub(crate) fn x25519_public(secret: &[u8; 32]) -> (public: [u8; 32])
    ensures
        public@ == x25519_public_key(secret@),
{
    x25519_dalek::PublicKey::from(&x25519_dalek::StaticSecret::from(*secret)).to_bytes()
}

/// Calls `StaticSecret::diffie_hellman` of the `x25519_dalek` crate. The
/// contract claims that the output is the shared secret of the two keys, and
/// that the owner of the peer's public key derives the same shared secret
/// from the public key of this secret key.
#[verifier::external_body]
pub(crate) fn x25519_shared(secret: &[u8; 32], peer_public: &[u8; 32]) -> (shared: [u8; 32])
    ensures
        shared@ == x25519_shared_secret(secret@, peer_public@),
        agrees(secret@, peer_public@, shared@),
{
    let peer = x25519_dalek::PublicKey::from(*peer_public);
    x25519_dalek::StaticSecret::from(*secret).diffie_hellman(&peer).to_bytes()
}

/// Calls `SigningKey::verifying_key` of the `ed25519_dalek` crate. The
/// contract claims that the output is the public key of the secret key.
#[verifier::external_body]
pub(crate) fn ed25519_public(secret: &[u8; 32]) -> (public: [u8; 32])
    ensures
        public@ == ed25519_public_key(secret@),
{
    ed25519_dalek::SigningKey::from_bytes(secret).verifying_key().to_bytes()
}

/// Calls `SigningKey::sign` of the `ed25519_dalek` crate. The contract claims
/// that the output is the signature of the message under the secret key, and
/// that it verifies under the public key of that secret key.
#[verifier::external_body]
pub(crate) fn ed25519_sign(secret: &[u8; 32], message: &[u8]) -> (signature: [u8; 64])
    ensures
        signature@ == ed25519_signature(secret@, message@),
        ed25519_verifies(ed25519_public_key(secret@), message@, signature@),
{
    ed25519_dalek::SigningKey::from_bytes(secret).sign(message).to_bytes()
}

/// Calls `VerifyingKey::from_bytes` and `VerifyingKey::verify` of the
/// `ed25519_dalek` crate; bytes that are no public key verify nothing. The
/// contract claims that the output tells whether the signature verifies.
#[verifier::external_body]
pub(crate) fn ed25519_verify(public: &[u8; 32], message: &[u8], signature: &[u8; 64]) -> (ok: bool)
    ensures
        ok == ed25519_verifies(public@, message@, signature@),
{
    match ed25519_dalek::VerifyingKey::from_bytes(public) {
        Ok(key) => key.verify(message, &ed25519_dalek::Signature::from_bytes(signature)).is_ok(),
        Err(_) => false,
    }
}

/// Calls `Engine::encode` on `base64::engine::general_purpose::STANDARD`.
/// The contract claims that the output is the base64 text of the input, that
/// decoding it gives the input back, and that it holds no colon, which is no
/// character of the alphabet.
#[verifier::external_body]
pub(crate) fn base64_encode(data: &[u8]) -> (text: String)
    ensures
        text@ == base64_standard(data@),
        base64_standard_decoded(text@) == Some(data@),
        !text@.contains(':'),
{
    base64::engine::general_purpose::STANDARD.encode(data)
}

/// Calls `Engine::decode` on `base64::engine::general_purpose::STANDARD`.
/// The contract claims that the output is what the text denotes.
#[verifier::external_body]
pub(crate) fn base64_decode(text: &str) -> (data: Option<Vec<u8>>)
    ensures
        match data {
            Some(d) => base64_standard_decoded(text@) == Some(d@),
            None => base64_standard_decoded(text@) is None,
        },
{
    base64::engine::general_purpose::STANDARD.decode(text).ok()
}

/// Calls `multibase::encode` with `Base::Base32Lower` or `Base::Base64`. The
/// contract claims that the output is the multibase text of the input in
/// that base.
#[verifier::external_body]
pub(crate) fn multibase_encode(lower32: bool, data: &[u8]) -> (text: String)
    ensures
        text@ == multibase_encoded(lower32, data@),
{
    let base = if lower32 { multibase::Base::Base32Lower } else { multibase::Base::Base64 };
    multibase::encode(base, data)
}

} // verus!
