//! What is taken on trust of the `snow` crate.

use vstd::prelude::*;

verus! {

/// Largest message of the Noise protocol, in bytes.
pub const NOISE_MAX_MESSAGE_LEN: usize = 65535;

/// Length of a private key of the handshake, in bytes.
pub const NOISE_KEY_LEN: usize = 32;

/// Room that a handshake message takes before its payload at the most: an
/// ephemeral key of 32 bytes and a sealed static key of 48.
pub const NOISE_KEYS_ROOM: usize = 80;

/// The state of a Noise handshake of the `snow` crate. Nothing of its inside
/// is known here.
#[verifier::external_type_specification]
#[verifier::external_body]
pub struct ExNoiseHandshake(snow::HandshakeState);

/// The state of a Noise transport of the `snow` crate. Nothing of its inside
/// is known here.
#[verifier::external_type_specification]
#[verifier::external_body]
pub struct ExNoiseTransport(snow::TransportState);

/// Calls `Builder::generate_keypair` of the `snow` crate for the pattern
/// named `pattern` and hands out the private and the public key. Nothing is
/// claimed of the keys: they are drawn at random.
#[verifier::external_body]
pub(crate) fn noise_generate_keypair(pattern: &str) -> (keys: Option<(Vec<u8>, Vec<u8>)>) {
    let params = pattern.parse().ok()?;
    let keypair = snow::Builder::new(params).generate_keypair().ok()?;
    Some((keypair.private, keypair.public))
}

/// Calls `Builder::local_private_key` and `Builder::build_initiator` of the
/// `snow` crate for the pattern named `pattern`. The builder copies the key
/// into 32 bytes, so a longer key is left out. Nothing is claimed of the
/// state.
#[verifier::external_body]
pub(crate) fn noise_build_initiator(
    pattern: &str,
    private_key: &[u8],
) -> (state: Option<snow::HandshakeState>)
    requires
        private_key@.len() <= NOISE_KEY_LEN,
{
    let params = pattern.parse().ok()?;
    snow::Builder::new(params).local_private_key(private_key).build_initiator().ok()
}

/// Calls `Builder::local_private_key` and `Builder::build_responder` of the
/// `snow` crate for the pattern named `pattern`. The builder copies the key
/// into 32 bytes, so a longer key is left out. Nothing is claimed of the
/// state.
#[verifier::external_body]
pub(crate) fn noise_build_responder(
    pattern: &str,
    private_key: &[u8],
) -> (state: Option<snow::HandshakeState>)
    requires
        private_key@.len() <= NOISE_KEY_LEN,
{
    let params = pattern.parse().ok()?;
    snow::Builder::new(params).local_private_key(private_key).build_responder().ok()
}

/// Calls `HandshakeState::write_message` of the `snow` crate. A sealed
/// static key is written without a test for all the room it takes, so a
/// buffer without room for the keys of a message is left out. The contract
/// claims that the buffer keeps its length and that the length written is
/// within it.
#[verifier::external_body]
pub(crate) fn noise_write(
    state: &mut snow::HandshakeState,
    payload: &[u8],
    buf: &mut Vec<u8>,
) -> (r: Result<usize, ()>)
    requires
        payload@.len() <= NOISE_MAX_MESSAGE_LEN,
        old(buf)@.len() >= NOISE_KEYS_ROOM,
    ensures
        final(buf)@.len() == old(buf)@.len(),
        r matches Ok(n) ==> n <= old(buf)@.len(),
{
    state.write_message(payload, buf.as_mut_slice()).map_err(|_| ())
}

/// Calls `HandshakeState::read_message` of the `snow` crate. The contract
/// claims that the buffer keeps its length and that the length read is
/// within it.
#[verifier::external_body]
pub(crate) fn noise_read(
    state: &mut snow::HandshakeState,
    message: &[u8],
    buf: &mut Vec<u8>,
) -> (r: Result<usize, ()>)
    ensures
        final(buf)@.len() == old(buf)@.len(),
        r matches Ok(n) ==> n <= old(buf)@.len(),
{
    state.read_message(message, buf.as_mut_slice()).map_err(|_| ())
}

/// Calls `HandshakeState::get_remote_static` of the `snow` crate and copies
/// the key. Nothing is claimed of the key.
#[verifier::external_body]
pub(crate) fn noise_remote_static(state: &snow::HandshakeState) -> (key: Option<Vec<u8>>) {
    state.get_remote_static().map(|k| k.to_vec())
}

/// Calls `HandshakeState::is_handshake_finished` of the `snow` crate. Nothing
/// is claimed of the answer.
#[verifier::external_body]
pub(crate) fn noise_is_finished(state: &snow::HandshakeState) -> (finished: bool) {
    state.is_handshake_finished()
}

/// Calls `HandshakeState::into_transport_mode` of the `snow` crate. Nothing
/// is claimed of the state.
#[verifier::external_body]
pub(crate) fn noise_into_transport(state: snow::HandshakeState) -> (transport: Option<snow::TransportState>) {
    state.into_transport_mode().ok()
}

/// Calls `TransportState::write_message` of the `snow` crate. The contract
/// claims that the buffer keeps its length and that what is written is the
/// payload and a tag of 16 bytes long, within the buffer.
#[verifier::external_body]
pub(crate) fn noise_transport_write(
    state: &mut snow::TransportState,
    payload: &[u8],
    buf: &mut Vec<u8>,
) -> (r: Result<usize, ()>)
    requires
        payload@.len() + 16 <= usize::MAX,
    ensures
        final(buf)@.len() == old(buf)@.len(),
        r matches Ok(n) ==> n == payload@.len() + 16 && n <= old(buf)@.len(),
{
    state.write_message(payload, buf.as_mut_slice()).map_err(|_| ())
}

/// Calls `TransportState::read_message` of the `snow` crate. The contract
/// claims that the buffer keeps its length and that what is read is the
/// message less its tag of 16 bytes long, within the buffer.
#[verifier::external_body]
pub(crate) fn noise_transport_read(
    state: &mut snow::TransportState,
    message: &[u8],
    buf: &mut Vec<u8>,
) -> (r: Result<usize, ()>)
    ensures
        final(buf)@.len() == old(buf)@.len(),
        r matches Ok(n) ==> n + 16 == message@.len() && n <= old(buf)@.len(),
{
    state.read_message(message, buf.as_mut_slice()).map_err(|_| ())
}

} // verus!
