//! What is taken on trust of the `rand` crate.

use rand::{Rng, RngCore};
use vstd::prelude::*;

verus! {

/// Calls `Rng::gen::<u64>` on `rand::thread_rng()`. Nothing is claimed of the
/// value: every call may give another.
#[verifier::external_body]
pub(crate) fn random_u64() -> (n: u64) {
    rand::thread_rng().gen::<u64>()
}

/// Calls `RngCore::fill_bytes` on `rand::thread_rng()` for 32 bytes. Nothing
/// is claimed of the bytes.
#[verifier::external_body]
pub(crate) fn random_bytes_32() -> (bytes: [u8; 32]) {
    let mut bytes = [0u8; 32];
    rand::thread_rng().fill_bytes(&mut bytes);
    bytes
}

/// Calls `RngCore::fill_bytes` on `rand::rngs::OsRng` for 32 bytes. Nothing is
/// claimed of the bytes.
#[verifier::external_body]
pub(crate) fn os_random_bytes_32() -> (bytes: [u8; 32]) {
    let mut bytes = [0u8; 32];
    rand::rngs::OsRng.fill_bytes(&mut bytes);
    bytes
}

/// Calls `Rng::gen::<[u8; 16]>` on `rand::thread_rng()`. Nothing is claimed
/// of the bytes.
#[verifier::external_body]
pub(crate) fn random_bytes_16() -> (bytes: [u8; 16]) {
    rand::thread_rng().gen::<[u8; 16]>()
}

/// Calls `rand::random::<u16>`. Nothing is claimed of the value.
#[verifier::external_body]
pub(crate) fn random_u16() -> (n: u16) {
    rand::random::<u16>()
}

} // verus!
