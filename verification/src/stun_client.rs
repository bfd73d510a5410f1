//! STUN binding requests and responses, written and read by the `stun`
//! crate, and what two bindings tell of the NAT.

use crate::addr::{IpAddress, SocketAddress};
use crate::error::Error;
use crate::nat_traversal::NatType;
use crate::time::{duration_from_ms, duration_millis, duration_to_ms};
use std::time::Duration;
use stun::agent::TransactionId;
use stun::addr::MappedAddress;
use stun::attributes::ATTR_MAPPED_ADDRESS;
use stun::message::{Getter, Message, Setter, BINDING_REQUEST};
use stun::xoraddr::XorMappedAddress;
use vstd::prelude::*;

verus! {

/// Length of the header of a STUN message, which is all of a binding
/// request.
pub const STUN_HEADER_LEN: usize = 20;

/// Time to wait for a STUN server unless another is given, in milliseconds.
pub const DEFAULT_STUN_TIMEOUT_MS: u64 = 5_000;

/// The magic cookie, byte by byte.
pub open spec fn magic_cookie() -> Seq<u8> {
    seq![0x21u8, 0x12u8, 0xa4u8, 0x42u8]
}

/// The binding request with transaction id `tid`: the message type, a zero
/// length, the magic cookie and the transaction id.
pub open spec fn binding_request_bytes(tid: Seq<u8>) -> Seq<u8> {
    seq![0x00u8, 0x01u8, 0x00u8, 0x00u8] + magic_cookie() + tid
}

/// Whether `Message::decode` of the `stun` crate accepts the bytes.
pub uninterp spec fn stun_decodes(data: Seq<u8>) -> bool;

/// The type, as the number that `MessageType::value` of the `stun` crate
/// gives, of the message that `Message::decode` reads from the bytes.
pub uninterp spec fn stun_message_type(data: Seq<u8>) -> u16;

/// The address that `XorMappedAddress::get_from` of the `stun` crate finds in
/// the message read from the bytes, as `MappedAddress::add_to` writes it
/// down: the family in two bytes, the port in two bytes, then the octets of
/// the address, each number with its most significant byte first.
pub uninterp spec fn stun_xor_mapped_address(data: Seq<u8>) -> Option<Seq<u8>>;

/// Calls `Message::build` of the `stun` crate with the binding request type
/// and the transaction id. The contract claims that the message built is the
/// header of a binding request: these two setters cannot fail, and a
/// message without attributes is its header.
#[verifier::external_body]
fn stun_build_binding_request(tid: &[u8; 12]) -> (raw: Option<Vec<u8>>)
    ensures
        match raw {
            Some(m) => m@ == binding_request_bytes(tid@),
            None => false,
        },
{
    let mut message = Message::new();
    message.build(&[Box::new(BINDING_REQUEST), Box::new(TransactionId(*tid))]).ok()?;
    Some(message.raw)
}

/// Calls `Message::decode` of the `stun` crate on a message of these bytes.
/// The contract claims that the answer is a function of the bytes.
#[verifier::external_body]
fn stun_decode(data: &[u8]) -> (ok: bool)
    ensures
        ok == stun_decodes(data@),
{
    let mut message = Message::new();
    message.raw = data.to_vec();
    message.decode().is_ok()
}

/// Calls `MessageType::value` of the `stun` crate on the type of the
/// message that `Message::decode` reads from these bytes. The contract
/// claims that the number is a function of the bytes.
#[verifier::external_body]
fn stun_decoded_type(data: &[u8]) -> (value: u16)
    ensures
        value == stun_message_type(data@),
{
    let mut message = Message::new();
    message.raw = data.to_vec();
    let _ = message.decode();
    message.typ.value()
}

/// Calls `XorMappedAddress::get_from` of the `stun` crate on the message that
/// `Message::decode` reads from these bytes, and hands the address out as
/// the bytes that `MappedAddress::add_to` and `Message::get` give for it. The
/// contract claims that the result is a function of the bytes and has the
/// shape that the writer gives it: family 1 with four octets or family 2
/// with sixteen.
#[verifier::external_body]
fn stun_get_xor_mapped_address(data: &[u8]) -> (found: Option<Vec<u8>>)
    ensures
        match found {
            Some(value) => stun_xor_mapped_address(data@) == Some(value@) && is_address_value(
                value@,
            ),
            None => stun_xor_mapped_address(data@) is None,
        },
{
    let mut message = Message::new();
    message.raw = data.to_vec();
    let _ = message.decode();
    let mut address = XorMappedAddress::default();
    address.get_from(&message).ok()?;
    let mut plain = Message::new();
    MappedAddress { ip: address.ip, port: address.port }.add_to(&mut plain).ok()?;
    plain.get(ATTR_MAPPED_ADDRESS).ok()
}

/// Writes the binding request with transaction id `tid`.
pub fn binding_request(tid: &[u8; 12]) -> (message: Vec<u8>)
    ensures
        message@ == binding_request_bytes(tid@),
        message@.len() == STUN_HEADER_LEN,
{
    match stun_build_binding_request(tid) {
        Some(message) => message,
        None => Vec::new(),
    }
}

/// Reason of the error returned for bytes that are no STUN message.
pub open spec fn reason_undecodable() -> Seq<char> {
    "Failed to decode STUN response"@
}

/// Reason of the error returned for a message that is no binding success
/// response.
pub open spec fn reason_invalid_response() -> Seq<char> {
    "Invalid STUN response type"@
}

/// Reason of the error returned for a response that reports no address.
pub open spec fn reason_no_mapped_address() -> Seq<char> {
    "Failed to get XOR-MAPPED-ADDRESS"@
}

/// The type of a binding success response as a number.
pub const BINDING_SUCCESS_TYPE: u16 = 0x0101;

/// Whether `value` has the shape of an address written down: two bytes of
/// family, two of port, and four octets for family 1 or sixteen for
/// family 2.
pub open spec fn is_address_value(value: Seq<u8>) -> bool {
    ||| value.len() == 8 && value[0] == 0 && value[1] == 1
    ||| value.len() == 20 && value[0] == 0 && value[1] == 2
}

/// The 16-bit number of a high and a low byte.
pub open spec fn word(high: u8, low: u8) -> u16 {
    (high * 256 + low) as u16
}

/// The socket address that an address written down denotes; nothing for
/// bytes of another shape.
pub open spec fn address_of_value(value: Seq<u8>) -> Option<SocketAddress> {
    if value.len() == 8 && value[0] == 0 && value[1] == 1 {
        Some(
            SocketAddress {
                ip: IpAddress::V4(value[4], value[5], value[6], value[7]),
                port: word(value[2], value[3]),
            },
        )
    } else if value.len() == 20 && value[0] == 0 && value[1] == 2 {
        Some(
            SocketAddress {
                ip: IpAddress::V6(
                    word(value[4], value[5]),
                    word(value[6], value[7]),
                    word(value[8], value[9]),
                    word(value[10], value[11]),
                    word(value[12], value[13]),
                    word(value[14], value[15]),
                    word(value[16], value[17]),
                    word(value[18], value[19]),
                ),
                port: word(value[2], value[3]),
            },
        )
    } else {
        None
    }
}

fn make_word(high: u8, low: u8) -> (w: u16)
    ensures
        w == word(high, low),
{
    (high as u16) * 256 + (low as u16)
}

/// Reads an address written down.
pub fn read_address_value(value: &[u8]) -> (address: Option<SocketAddress>)
    ensures
        address == address_of_value(value@),
{
    if value.len() == 8 && value[0] == 0 && value[1] == 1 {
        let ip = IpAddress::V4(value[4], value[5], value[6], value[7]);
        Some(SocketAddress::new(ip, make_word(value[2], value[3])))
    } else if value.len() == 20 && value[0] == 0 && value[1] == 2 {
        let ip = IpAddress::V6(
            make_word(value[4], value[5]),
            make_word(value[6], value[7]),
            make_word(value[8], value[9]),
            make_word(value[10], value[11]),
            make_word(value[12], value[13]),
            make_word(value[14], value[15]),
            make_word(value[16], value[17]),
            make_word(value[18], value[19]),
        );
        Some(SocketAddress::new(ip, make_word(value[2], value[3])))
    } else {
        None
    }
}

/// What is made of a response once it is known whether it decodes, which
/// type it has, and which address it reports: the address, where the
/// response decodes, is a binding success response and reports an address
/// of the shape of one.
pub open spec fn response_outcome(
    decodes: bool,
    message_type: u16,
    mapped: Option<Seq<u8>>,
) -> Option<SocketAddress> {
    if !decodes || message_type != BINDING_SUCCESS_TYPE {
        None
    } else {
        match mapped {
            Some(value) => address_of_value(value),
            None => None,
        }
    }
}

/// The public address that a binding success response reports.
pub open spec fn mapped_address_of(data: Seq<u8>) -> Option<SocketAddress> {
    response_outcome(stun_decodes(data), stun_message_type(data), stun_xor_mapped_address(data))
}

/// The reason of the error for a response of which no address is made: the
/// first thing that is not in order.
pub open spec fn response_error(decodes: bool, message_type: u16) -> Seq<char> {
    if !decodes {
        reason_undecodable()
    } else if message_type != BINDING_SUCCESS_TYPE {
        reason_invalid_response()
    } else {
        reason_no_mapped_address()
    }
}

/// Makes the result of what was found out of a response: its address, or
/// the error of the first thing that is not in order.
pub fn binding_response_outcome(
    decodes: bool,
    message_type: u16,
    mapped: Option<Vec<u8>>,
) -> (r: Result<SocketAddress, Error>)
    ensures
        match r {
            Ok(addr) => response_outcome(
                decodes,
                message_type,
                match mapped {
                    Some(value) => Some(value@),
                    None => None,
                },
            ) == Some(addr),
            Err(e) => {
                &&& response_outcome(
                    decodes,
                    message_type,
                    match mapped {
                        Some(value) => Some(value@),
                        None => None,
                    },
                ) is None
                &&& e.is_network(response_error(decodes, message_type))
            },
        },
{
    if !decodes {
        return Err(Error::network("Failed to decode STUN response"));
    }
    if message_type != BINDING_SUCCESS_TYPE {
        return Err(Error::network("Invalid STUN response type"));
    }
    match mapped {
        Some(value) => match read_address_value(value.as_slice()) {
            Some(address) => Ok(address),
            None => Err(Error::network("Failed to get XOR-MAPPED-ADDRESS")),
        },
        None => Err(Error::network("Failed to get XOR-MAPPED-ADDRESS")),
    }
}

/// Reads the public address that a binding success response reports: the
/// one that the response holds, whenever it decodes, is a binding success
/// response and holds one.
pub fn parse_binding_response(data: &[u8]) -> (r: Result<SocketAddress, Error>)
    ensures
        match r {
            Ok(addr) => mapped_address_of(data@) == Some(addr),
            Err(e) => mapped_address_of(data@) is None && e.is_network(
                response_error(stun_decodes(data@), stun_message_type(data@)),
            ),
        },
        r is Ok <==> stun_decodes(data@) && stun_message_type(data@) == BINDING_SUCCESS_TYPE
            && stun_xor_mapped_address(data@) is Some,
{
    let decodes = stun_decode(data);
    if !decodes {
        return binding_response_outcome(false, 0, None);
    }
    let message_type = stun_decoded_type(data);
    if message_type != BINDING_SUCCESS_TYPE {
        return binding_response_outcome(true, message_type, None);
    }
    binding_response_outcome(true, message_type, stun_get_xor_mapped_address(data))
}

/// What a STUN server reported of this host.
#[derive(Debug, Clone)]
pub struct StunBinding {
    pub public_ip: IpAddress,
    pub public_port: u16,
    pub server: String,
}

/// What a probe of the NAT found.
#[derive(Debug, Clone)]
pub struct StunResult {
    pub binding: Option<StunBinding>,
    pub nat_type: NatType,
    pub can_hole_punch: bool,
}

/// The kind of NAT that two bindings from different servers tell of: a full
/// cone where both report the same address and port, a symmetric NAT where
/// they differ, unknown where the second server did not answer.
pub open spec fn nat_type_of(first: StunBinding, second: Option<StunBinding>) -> NatType {
    match second {
        Some(s) => if first.public_ip == s.public_ip && first.public_port == s.public_port {
            NatType::FullCone
        } else {
            NatType::Symmetric
        },
        None => NatType::Unknown,
    }
}

/// Asks STUN servers for the public address of this host.
pub struct StunClient {
    servers: Vec<String>,
    timeout: u64,
    local_port: u16,
}

impl StunClient {
    /// The servers to ask, in order.
    pub closed spec fn spec_servers(&self) -> Seq<String> {
        self.servers@
    }

    /// How long to wait for a server, in milliseconds.
    pub closed spec fn spec_timeout(&self) -> u64 {
        self.timeout
    }

    /// The local port to ask from; zero for any.
    pub closed spec fn spec_local_port(&self) -> u16 {
        self.local_port
    }

    /// Whether this is the client that is made where nothing is given: five
    /// public servers, the default timeout, any local port.
    pub open spec fn is_default(&self) -> bool {
        &&& self.spec_servers().len() == 5
        &&& self.spec_servers()[0]@ == "stun.l.google.com:19302"@
        &&& self.spec_servers()[1]@ == "stun1.l.google.com:19302"@
        &&& self.spec_servers()[2]@ == "stun2.l.google.com:19302"@
        &&& self.spec_servers()[3]@ == "stun3.l.google.com:19302"@
        &&& self.spec_servers()[4]@ == "stun4.l.google.com:19302"@
        &&& self.spec_timeout() == DEFAULT_STUN_TIMEOUT_MS
        &&& self.spec_local_port() == 0
    }

    /// A client for the five default servers.
    pub fn new() -> (c: Self)
        ensures
            c.is_default(),
    {
        let mut servers: Vec<String> = Vec::new();
        servers.push("stun.l.google.com:19302".to_owned());
        servers.push("stun1.l.google.com:19302".to_owned());
        servers.push("stun2.l.google.com:19302".to_owned());
        servers.push("stun3.l.google.com:19302".to_owned());
        servers.push("stun4.l.google.com:19302".to_owned());
        Self { servers, timeout: DEFAULT_STUN_TIMEOUT_MS, local_port: 0 }
    }

    /// A client for `servers`, with the default timeout, asking from any port.
    pub fn with_servers(servers: Vec<String>) -> (c: Self)
        ensures
            c.spec_servers() == servers@,
            c.spec_timeout() == DEFAULT_STUN_TIMEOUT_MS,
            c.spec_local_port() == 0,
    {
        Self { servers, timeout: DEFAULT_STUN_TIMEOUT_MS, local_port: 0 }
    }

    /// The same client with another timeout, in milliseconds.
    pub fn with_timeout_ms(self, timeout: u64) -> (c: Self)
        ensures
            c.spec_servers() == self.spec_servers(),
            c.spec_timeout() == timeout,
            c.spec_local_port() == self.spec_local_port(),
    {
        Self { servers: self.servers, timeout, local_port: self.local_port }
    }

    /// The same client with another timeout, counted in whole milliseconds.
    pub fn with_timeout(self, timeout: Duration) -> (c: Self)
        ensures
            c.spec_servers() == self.spec_servers(),
            c.spec_timeout() == duration_millis(timeout),
            c.spec_local_port() == self.spec_local_port(),
    {
        self.with_timeout_ms(duration_to_ms(timeout))
    }

    /// The same client asking from `port`.
    pub fn with_local_port(self, port: u16) -> (c: Self)
        ensures
            c.spec_servers() == self.spec_servers(),
            c.spec_timeout() == self.spec_timeout(),
            c.spec_local_port() == port,
    {
        Self { servers: self.servers, timeout: self.timeout, local_port: port }
    }

    /// The servers to ask, in order.
    pub fn servers(&self) -> (s: &[String])
        ensures
            s@ == self.spec_servers(),
    {
        self.servers.as_slice()
    }

    /// How long to wait for a server, in milliseconds.
    pub fn timeout_ms(&self) -> (t: u64)
        ensures
            t == self.spec_timeout(),
    {
        self.timeout
    }

    /// How long to wait for a server.
    pub fn timeout(&self) -> (t: Duration)
        ensures
            duration_millis(t) == self.spec_timeout(),
    {
        duration_from_ms(self.timeout)
    }

    /// The local port to ask from; zero for any.
    pub fn local_port(&self) -> (p: u16)
        ensures
            p == self.spec_local_port(),
    {
        self.local_port
    }

    /// The local address to ask from: the unspecified IPv4 address and the
    /// configured port.
    pub fn local_bind_address(&self) -> (a: SocketAddress)
        ensures
            a == (SocketAddress { ip: IpAddress::V4(0, 0, 0, 0), port: self.spec_local_port() }),
    {
        SocketAddress::new(IpAddress::V4(0, 0, 0, 0), self.local_port)
    }

    /// The server to ask for a second opinion on the kind of NAT: the second
    /// of the configured ones, if there are two.
    pub fn second_opinion_server(&self) -> (s: Option<&String>)
        ensures
            match s {
                Some(server) => self.spec_servers().len() >= 2 && *server == self.spec_servers()[1],
                None => self.spec_servers().len() < 2,
            },
    {
        if self.servers.len() >= 2 {
            Some(&self.servers[1])
        } else {
            None
        }
    }

    /// What a probe comes to, given the first binding obtained, if any, and
    /// the binding that the second server gave, if it was asked and answered.
    ///
    /// Without a first binding nothing is known and hole punching is off.
    /// With fewer than two servers the kind of NAT stays unknown. Otherwise
    /// the two bindings tell, as [`nat_type_of`] says.
    pub fn probe_result(
        &self,
        first: Option<StunBinding>,
        second: Option<StunBinding>,
    ) -> (r: StunResult)
        ensures
            r.binding == first,
            r.nat_type == match first {
                Some(f) => if self.spec_servers().len() >= 2 {
                    nat_type_of(f, second)
                } else {
                    NatType::Unknown
                },
                None => NatType::Unknown,
            },
            r.can_hole_punch == r.nat_type.hole_punchable(),
    {
        let nat_type = match &first {
            Some(f) => if self.servers.len() >= 2 {
                Self::determine_nat_type(f, &second)
            } else {
                NatType::Unknown
            },
            None => NatType::Unknown,
        };
        StunResult { binding: first, nat_type, can_hole_punch: nat_type.can_hole_punch() }
    }

    /// The kind of NAT that two bindings tell of.
    pub fn determine_nat_type(first: &StunBinding, second: &Option<StunBinding>) -> (t: NatType)
        ensures
            t == nat_type_of(*first, *second),
    {
        match second {
            Some(s) => if first.public_ip == s.public_ip && first.public_port == s.public_port {
                NatType::FullCone
            } else {
                NatType::Symmetric
            },
            None => NatType::Unknown,
        }
    }
}

impl Default for StunClient {
    fn default() -> (c: Self)
        ensures
            c.is_default(),
    {
        Self::new()
    }
}

} // verus!
