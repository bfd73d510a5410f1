//! Candidates, candidate pairs and the agent that gathers them, pairs them,
//! checks them and selects a connection.

use crate::addr::{
    ip_of, parse_ip, parse_socket_addr, socket_addr_of, SocketAddress
};
use crate::error::Error;
use crate::random::{random_u16, random_u64};
use crate::text::{
    chars_of, decimal, eq_ignoring_case, parse_unsigned, push_decimal, reads_ignoring_case,
    same_chars, split_words, starts_with, string_of, unsigned_value, words,
};
use crate::turn::{host_address_of, is_relay_address, reason_invalid_server, DEFAULT_TURN_PORT};
use vstd::prelude::*;

verus! {

/// Overall budget of the connectivity checks unless another is given, in milliseconds.
pub const ICE_CONNECTIVITY_TIMEOUT_MS: u64 = 5_000;

/// Pause between two rounds of connectivity checks, in milliseconds.
pub const ICE_CHECK_INTERVAL_MS: u64 = 50;

/// Deadline of one connectivity check, in milliseconds.
pub const ICE_CHECK_DEADLINE_MS: u64 = 500;

/// Budget of a nomination, in milliseconds.
pub const ICE_NOMINATION_TIMEOUT_MS: u64 = 3_000;

/// How a candidate came about.
#[derive(Debug, Clone, Copy, PartialEq, Eq, Hash, Structural)]
pub enum CandidateType {
    Host,
    ServerReflexive,
    PeerReflexive,
    Relayed,
}

/// The transport of a candidate.
#[derive(Debug, Clone, Copy, PartialEq, Eq, Hash, Structural)]
pub enum TransportType {
    Udp,
    Tcp,
}

/// Where a candidate pair stands in the connectivity checks.
#[derive(Debug, Clone, Copy, PartialEq, Eq, Hash, Structural)]
pub enum CandidatePairState {
    Frozen,
    Waiting,
    InProgress,
    Succeeded,
    Failed,
}

/// Which side nominates the pair to use.
#[derive(Debug, Clone, Copy, PartialEq, Eq, Structural)]
pub enum IceRole {
    Controlling,
    Controlled,
}

/// Whether the first pair that succeeds is nominated at once or after the
/// round of checks.
#[derive(Debug, Clone, Copy, PartialEq, Eq, Structural)]
pub enum NominationMode {
    Aggressive,
    Regular,
}

/// Where an agent stands in establishing a connection.
#[derive(Debug, Clone, Copy, PartialEq, Eq, Structural)]
pub enum ConnectionState {
    New,
    Checking,
    Connected,
    Completed,
    Failed,
    Disconnected,
    Closed,
}

impl CandidateType {
    /// The type preference that enters a candidate's priority.
    pub open spec fn spec_type_preference(self) -> u32 {
        match self {
            CandidateType::Host => 126,
            CandidateType::PeerReflexive => 110,
            CandidateType::ServerReflexive => 100,
            CandidateType::Relayed => 0,
        }
    }

    /// The type preference that enters a candidate's priority.
    #[verifier::when_used_as_spec(spec_type_preference)]
    pub fn type_preference(self) -> (p: u32)
        ensures
            p == self.spec_type_preference(),
    {
        match self {
            CandidateType::Host => 126,
            CandidateType::PeerReflexive => 110,
            CandidateType::ServerReflexive => 100,
            CandidateType::Relayed => 0,
        }
    }

    /// The name of the type in a candidate line.
    pub open spec fn spec_name(self) -> Seq<char> {
        match self {
            CandidateType::Host => "host"@,
            CandidateType::ServerReflexive => "srflx"@,
            CandidateType::PeerReflexive => "prflx"@,
            CandidateType::Relayed => "relay"@,
        }
    }

    /// The name of the type in a candidate line.
    pub fn name(self) -> (s: &'static str)
        ensures
            s@ == self.spec_name(),
    {
        match self {
            CandidateType::Host => "host",
            CandidateType::ServerReflexive => "srflx",
            CandidateType::PeerReflexive => "prflx",
            CandidateType::Relayed => "relay",
        }
    }

    /// The name of the type as an owned string.
    pub fn to_string(&self) -> (s: String)
        ensures
            s@ == self.spec_name(),
    {
        self.name().to_owned()
    }
}

impl TransportType {
    /// The name of the transport in upper case.
    pub open spec fn spec_name(self) -> Seq<char> {
        match self {
            TransportType::Udp => "UDP"@,
            TransportType::Tcp => "TCP"@,
        }
    }

    /// The name of the transport in lower case, as a candidate line has it.
    pub open spec fn spec_lower_name(self) -> Seq<char> {
        match self {
            TransportType::Udp => "udp"@,
            TransportType::Tcp => "tcp"@,
        }
    }

    /// The name of the transport in upper case.
    pub fn to_string(&self) -> (s: String)
        ensures
            s@ == self.spec_name(),
    {
        match self {
            TransportType::Udp => "UDP".to_owned(),
            TransportType::Tcp => "TCP".to_owned(),
        }
    }

    /// The name of the transport in lower case.
    pub fn lower_name(self) -> (s: &'static str)
        ensures
            s@ == self.spec_lower_name(),
    {
        match self {
            TransportType::Udp => "udp",
            TransportType::Tcp => "tcp",
        }
    }
}

/// The priority of a candidate as a mathematical integer:
/// `2^24 * type preference + 2^8 * local preference + (256 - component id)`.
pub open spec fn priority_value(candidate_type: CandidateType, local_pref: u16, component_id: u16) -> int {
    0x100_0000 * candidate_type.spec_type_preference() + 0x100 * local_pref + (256 - component_id)
}

/// The priority of a pair as a mathematical integer: with `g` the greater and
/// `d` the lesser of the two candidate priorities,
/// `2^32 * d + 2 * g + (1 if g > d else 0)`.
pub open spec fn pair_priority_value(local: u32, remote: u32) -> int {
    let g = if local >= remote { local } else { remote };
    let d = if local >= remote { remote } else { local };
    0x1_0000_0000 * d + 2 * g + if g > d { 1int } else { 0int }
}

/// A transport address that a peer might receive traffic on.
#[derive(Debug, Clone)]
pub struct Candidate {
    pub foundation: String,
    pub component_id: u16,
    pub transport: TransportType,
    pub priority: u32,
    pub connection_addr: SocketAddress,
    pub base_addr: SocketAddress,
    pub candidate_type: CandidateType,
    pub related_addr: Option<SocketAddress>,
}

/// A candidate as plain values.
pub struct CandidateView {
    pub foundation: Seq<char>,
    pub component_id: u16,
    pub transport: TransportType,
    pub priority: u32,
    pub connection_addr: SocketAddress,
    pub base_addr: SocketAddress,
    pub candidate_type: CandidateType,
    pub related_addr: Option<SocketAddress>,
}

impl View for Candidate {
    type V = CandidateView;

    open spec fn view(&self) -> CandidateView {
        CandidateView {
            foundation: self.foundation@,
            component_id: self.component_id,
            transport: self.transport,
            priority: self.priority,
            connection_addr: self.connection_addr,
            base_addr: self.base_addr,
            candidate_type: self.candidate_type,
            related_addr: self.related_addr,
        }
    }
}

/// The host candidate on `addr`: its own base, no related address.
pub open spec fn host_view(addr: SocketAddress, component_id: u16) -> CandidateView {
    CandidateView {
        foundation: "host-"@ + addr.text(),
        component_id,
        transport: TransportType::Udp,
        priority: priority_value(CandidateType::Host, 0, component_id) as u32,
        connection_addr: addr,
        base_addr: addr,
        candidate_type: CandidateType::Host,
        related_addr: None,
    }
}

/// The server-reflexive candidate on `public_addr`, related to its base.
pub open spec fn server_reflexive_view(
    public_addr: SocketAddress,
    base_addr: SocketAddress,
    component_id: u16,
) -> CandidateView {
    CandidateView {
        foundation: "srflx-"@ + public_addr.text(),
        component_id,
        transport: TransportType::Udp,
        priority: priority_value(CandidateType::ServerReflexive, 0, component_id) as u32,
        connection_addr: public_addr,
        base_addr,
        candidate_type: CandidateType::ServerReflexive,
        related_addr: Some(base_addr),
    }
}

/// The relayed candidate on `relay_addr`, with the server as base and
/// related address.
pub open spec fn relayed_view(
    relay_addr: SocketAddress,
    server_addr: SocketAddress,
    component_id: u16,
) -> CandidateView {
    CandidateView {
        foundation: "relay-"@ + relay_addr.text(),
        component_id,
        transport: TransportType::Udp,
        priority: priority_value(CandidateType::Relayed, 0, component_id) as u32,
        connection_addr: relay_addr,
        base_addr: server_addr,
        candidate_type: CandidateType::Relayed,
        related_addr: Some(server_addr),
    }
}

fn foundation_of(prefix: &str, addr: &SocketAddress) -> (f: String)
    ensures
        f@ == prefix@ + addr.text(),
{
    let mut out = chars_of(prefix);
    addr.push_text(&mut out);
    string_of(out.as_slice())
}

impl Candidate {
    /// Computes a candidate priority.
    pub fn compute_priority(
        candidate_type: CandidateType,
        local_pref: u16,
        component_id: u16,
    ) -> (p: u32)
        requires
            priority_value(candidate_type, local_pref, component_id) >= 0,
        ensures
            p == priority_value(candidate_type, local_pref, component_id),
    {
        Self::calculate_priority(candidate_type, local_pref, component_id)
    }

    fn calculate_priority(
        candidate_type: CandidateType,
        local_pref: u16,
        component_id: u16,
    ) -> (p: u32)
        requires
            priority_value(candidate_type, local_pref, component_id) >= 0,
        ensures
            p == priority_value(candidate_type, local_pref, component_id),
    {
        let type_pref: u32 = candidate_type.type_preference();
        let high: u32 = 0x100_0000 * type_pref + 0x100 * (local_pref as u32) + 256;
        high - component_id as u32
    }

    /// A host candidate on `addr`: its own base, no related address.
    pub fn new_host(addr: SocketAddress, component_id: u16) -> (c: Self)
        ensures
            c@ == host_view(addr, component_id),
    {
        let foundation = foundation_of("host-", &addr);
        let priority = Self::calculate_priority(CandidateType::Host, 0, component_id);
        Self {
            foundation,
            component_id,
            transport: TransportType::Udp,
            priority,
            connection_addr: addr,
            base_addr: addr,
            candidate_type: CandidateType::Host,
            related_addr: None,
        }
    }

    /// A server-reflexive candidate: the public address seen by a STUN
    /// server, related to the base it was sent from.
    pub fn new_server_reflexive(
        public_addr: SocketAddress,
        base_addr: SocketAddress,
        component_id: u16,
    ) -> (c: Self)
        ensures
            c@ == server_reflexive_view(public_addr, base_addr, component_id),
    {
        let foundation = foundation_of("srflx-", &public_addr);
        let priority = Self::calculate_priority(CandidateType::ServerReflexive, 0, component_id);
        Self {
            foundation,
            component_id,
            transport: TransportType::Udp,
            priority,
            connection_addr: public_addr,
            base_addr,
            candidate_type: CandidateType::ServerReflexive,
            related_addr: Some(base_addr),
        }
    }

    /// A relayed candidate: the address that a TURN server allocated, with
    /// the server as base and related address. The component id must leave
    /// the priority non-negative.
    pub fn new_relayed(
        relay_addr: SocketAddress,
        server_addr: SocketAddress,
        component_id: u16,
    ) -> (c: Self)
        requires
            component_id <= 256,
        ensures
            c@ == relayed_view(relay_addr, server_addr, component_id),
    {
        let foundation = foundation_of("relay-", &relay_addr);
        let priority = Self::calculate_priority(CandidateType::Relayed, 0, component_id);
        Self {
            foundation,
            component_id,
            transport: TransportType::Udp,
            priority,
            connection_addr: relay_addr,
            base_addr: server_addr,
            candidate_type: CandidateType::Relayed,
            related_addr: Some(server_addr),
        }
    }

    /// A copy of the candidate.
    pub fn duplicate(&self) -> (c: Self)
        ensures
            c == *self,
    {
        Self {
            foundation: self.foundation.clone(),
            component_id: self.component_id,
            transport: self.transport,
            priority: self.priority,
            connection_addr: self.connection_addr,
            base_addr: self.base_addr,
            candidate_type: self.candidate_type,
            related_addr: self.related_addr,
        }
    }

    /// Whether two candidates agree in every attribute.
    pub fn same_as(&self, other: &Candidate) -> (b: bool)
        ensures
            b == (self@ == other@),
    {
        self.foundation == other.foundation && self.component_id == other.component_id
            && self.transport == other.transport && self.priority == other.priority
            && self.connection_addr == other.connection_addr && self.base_addr == other.base_addr
            && self.candidate_type == other.candidate_type && self.related_addr == other.related_addr
    }
}

/// The candidate line of a candidate:
/// `candidate:<foundation> <component> <transport> <priority> <ip> <port> typ <type>`,
/// followed by ` raddr <ip> rport <port>` where there is a related address.
/// The transport is in lower case.
pub open spec fn sdp_line(c: CandidateView) -> Seq<char> {
    "candidate:"@ + c.foundation + " "@ + decimal(c.component_id as nat) + " "@
        + c.transport.spec_lower_name() + " "@ + decimal(c.priority as nat) + " "@
        + c.connection_addr.ip.text() + " "@ + decimal(c.connection_addr.port as nat) + " typ "@
        + c.candidate_type.spec_name() + match c.related_addr {
        Some(related) => " raddr "@ + related.ip.text() + " rport "@ + decimal(related.port as nat),
        None => Seq::empty(),
    }
}

/// The transport that a word names, in any mix of upper and lower case.
pub open spec fn transport_of(word: Seq<char>) -> Option<TransportType> {
    if reads_ignoring_case(word, "udp"@) {
        Some(TransportType::Udp)
    } else if reads_ignoring_case(word, "tcp"@) {
        Some(TransportType::Tcp)
    } else {
        None
    }
}

/// The candidate type that a word names.
pub open spec fn candidate_type_of(word: Seq<char>) -> Option<CandidateType> {
    if word == "host"@ {
        Some(CandidateType::Host)
    } else if word == "srflx"@ {
        Some(CandidateType::ServerReflexive)
    } else if word == "prflx"@ {
        Some(CandidateType::PeerReflexive)
    } else if word == "relay"@ {
        Some(CandidateType::Relayed)
    } else {
        None
    }
}

/// The unsigned number no greater than `max` that a word denotes.
pub open spec fn bounded(word: Seq<char>, max: nat) -> Option<nat> {
    match unsigned_value(word) {
        Some(v) => if v <= max {
            Some(v)
        } else {
            None
        },
        None => None,
    }
}

/// The remote candidate that a candidate line denotes.
///
/// The line is read word by word. It needs at least eight words: the
/// foundation behind `candidate:`, the component, the transport, the
/// priority, the address, the port, the word `typ` and the type. Anything
/// after the type is ignored. The candidate is its own base and has no
/// related address.
pub open spec fn candidate_of(line: Seq<char>) -> Option<CandidateView> {
    let w = words(line);
    if w.len() < 8 {
        None
    } else if !crate::text::has_prefix(w[0], "candidate:"@) {
        None
    } else if bounded(w[1], 0xffff) is None || transport_of(w[2]) is None || bounded(
        w[3],
        0xffff_ffff,
    ) is None || ip_of(w[4]) is None || bounded(w[5], 0xffff) is None || w[6] != "typ"@
        || candidate_type_of(w[7]) is None {
        None
    } else {
        let addr = SocketAddress { ip: ip_of(w[4])->0, port: bounded(w[5], 0xffff)->0 as u16 };
        Some(
            CandidateView {
                foundation: w[0].subrange(10, w[0].len() as int),
                component_id: bounded(w[1], 0xffff)->0 as u16,
                transport: transport_of(w[2])->0,
                priority: bounded(w[3], 0xffff_ffff)->0 as u32,
                connection_addr: addr,
                base_addr: addr,
                candidate_type: candidate_type_of(w[7])->0,
                related_addr: None,
            },
        )
    }
}

fn push_str(out: &mut Vec<char>, s: &str)
    ensures
        final(out)@ == old(out)@ + s@,
{
    let chars = chars_of(s);
    let mut i: usize = 0;
    assert(old(out)@ + s@.subrange(0, 0) =~= old(out)@);
    while i < chars.len()
        invariant
            i <= chars@.len(),
            chars@ == s@,
            out@ == old(out)@ + s@.subrange(0, i as int),
        decreases chars@.len() - i,
    {
        out.push(chars[i]);
        i += 1;
        assert(out@ =~= old(out)@ + s@.subrange(0, i as int));
    }
    assert(s@.subrange(0, i as int) =~= s@);
}

fn parse_transport(word: &[char]) -> (t: Option<TransportType>)
    ensures
        t == transport_of(word@),
{
    let udp = ['u', 'd', 'p'];
    let tcp = ['t', 'c', 'p'];
    proof {
        reveal_strlit("udp");
        reveal_strlit("tcp");
        assert(udp@ =~= "udp"@);
        assert(tcp@ =~= "tcp"@);
    }
    if eq_ignoring_case(word, udp.as_slice()) {
        Some(TransportType::Udp)
    } else if eq_ignoring_case(word, tcp.as_slice()) {
        Some(TransportType::Tcp)
    } else {
        None
    }
}

fn parse_candidate_type(word: &[char]) -> (t: Option<CandidateType>)
    ensures
        t == candidate_type_of(word@),
{
    let host = chars_of("host");
    let srflx = chars_of("srflx");
    let prflx = chars_of("prflx");
    let relay = chars_of("relay");
    if same_chars(word, host.as_slice()) {
        Some(CandidateType::Host)
    } else if same_chars(word, srflx.as_slice()) {
        Some(CandidateType::ServerReflexive)
    } else if same_chars(word, prflx.as_slice()) {
        Some(CandidateType::PeerReflexive)
    } else if same_chars(word, relay.as_slice()) {
        Some(CandidateType::Relayed)
    } else {
        None
    }
}

fn parse_bounded(word: &[char], max: u64) -> (r: Option<u64>)
    ensures
        match r {
            Some(v) => bounded(word@, max as nat) == Some(v as nat),
            None => bounded(word@, max as nat) is None,
        },
{
    parse_unsigned(word, max)
}

impl Candidate {
    /// Writes the candidate line.
    pub fn to_sdp(&self) -> (line: String)
        ensures
            line@ == sdp_line(self@),
    {
        let mut out: Vec<char> = Vec::new();
        push_str(&mut out, "candidate:");
        push_str(&mut out, self.foundation.as_str());
        push_str(&mut out, " ");
        push_decimal(&mut out, self.component_id as u64);
        push_str(&mut out, " ");
        push_str(&mut out, self.transport.lower_name());
        push_str(&mut out, " ");
        push_decimal(&mut out, self.priority as u64);
        push_str(&mut out, " ");
        self.connection_addr.ip.push_text(&mut out);
        push_str(&mut out, " ");
        push_decimal(&mut out, self.connection_addr.port as u64);
        push_str(&mut out, " typ ");
        push_str(&mut out, self.candidate_type.name());
        match self.related_addr {
            Some(related) => {
                push_str(&mut out, " raddr ");
                related.ip.push_text(&mut out);
                push_str(&mut out, " rport ");
                push_decimal(&mut out, related.port as u64);
            },
            None => {},
        }
        assert(out@ =~= sdp_line(self@));
        string_of(out.as_slice())
    }
}

/// Reads the remote candidate that a candidate line denotes.
pub fn parse_candidate_from_sdp(sdp: &str) -> (c: Option<Candidate>)
    ensures
        match c {
            Some(candidate) => candidate_of(sdp@) == Some(candidate@),
            None => candidate_of(sdp@) is None,
        },
{
    let line = chars_of(sdp);
    let parts = split_words(line.as_slice());
    if parts.len() < 8 {
        return None;
    }
    let prefix = chars_of("candidate:");
    proof {
        reveal_strlit("candidate:");
    }
    if !starts_with(parts[0].as_slice(), prefix.as_slice()) {
        return None;
    }
    let foundation_chars = crate::text::copy_range(parts[0].as_slice(), 10, parts[0].len());
    let component = parse_bounded(parts[1].as_slice(), 0xffff);
    let transport = parse_transport(parts[2].as_slice());
    let priority = parse_bounded(parts[3].as_slice(), 0xffff_ffff);
    let ip = parse_ip(parts[4].as_slice());
    let port = parse_bounded(parts[5].as_slice(), 0xffff);
    let typ = chars_of("typ");
    let is_typ = same_chars(parts[6].as_slice(), typ.as_slice());
    let candidate_type = parse_candidate_type(parts[7].as_slice());
    match (component, transport, priority, ip, port, is_typ, candidate_type) {
        (Some(component), Some(transport), Some(priority), Some(ip), Some(port), true, Some(candidate_type)) => {
            let addr = SocketAddress { ip, port: port as u16 };
            Some(
                Candidate {
                    foundation: string_of(foundation_chars.as_slice()),
                    component_id: component as u16,
                    transport,
                    priority: priority as u32,
                    connection_addr: addr,
                    base_addr: addr,
                    candidate_type,
                    related_addr: None,
                },
            )
        },
        _ => None,
    }
}

/// Priority ordering: for one component and one local preference, a host
/// candidate outranks a peer-reflexive one, which outranks a
/// server-reflexive one, which outranks a relayed one.
pub proof fn lemma_priority_ordering(local_pref: u16, component_id: u16)
    ensures
        priority_value(CandidateType::Host, local_pref, component_id) > priority_value(
            CandidateType::PeerReflexive,
            local_pref,
            component_id,
        ),
        priority_value(CandidateType::PeerReflexive, local_pref, component_id) > priority_value(
            CandidateType::ServerReflexive,
            local_pref,
            component_id,
        ),
        priority_value(CandidateType::ServerReflexive, local_pref, component_id) > priority_value(
            CandidateType::Relayed,
            local_pref,
            component_id,
        ),
{
}

/// Pair priority symmetry: swapping local and remote gives the same value.
pub proof fn lemma_pair_priority_symmetric(a: u32, b: u32)
    ensures
        pair_priority_value(a, b) == pair_priority_value(b, a),
{
}

/// A local and a remote candidate that may be checked against each other.
/// Instants and round-trip times are in milliseconds.
#[derive(Debug, Clone)]
pub struct CandidatePair {
    pub local: Candidate,
    pub remote: Candidate,
    pub priority: u64,
    pub state: CandidatePairState,
    pub nominated: bool,
    pub last_check: Option<u64>,
    pub round_trip_time: Option<u64>,
}

/// The priority that a pair holds in its 64 bits: the value of the formula,
/// or the largest number that fits where the value is beyond it, which it
/// is for two candidates of the highest priority there is and for no
/// others.
pub open spec fn pair_priority_of(local: u32, remote: u32) -> u64 {
    if pair_priority_value(local, remote) > u64::MAX {
        u64::MAX
    } else {
        pair_priority_value(local, remote) as u64
    }
}

/// The pair that is first made of two candidates: frozen, not nominated,
/// never checked.
pub open spec fn fresh_pair(local: Candidate, remote: Candidate) -> CandidatePair {
    CandidatePair {
        local,
        remote,
        priority: pair_priority_of(local.priority, remote.priority),
        state: CandidatePairState::Frozen,
        nominated: false,
        last_check: None,
        round_trip_time: None,
    }
}

impl CandidatePair {
    /// Whether the value of the formula for these two candidate priorities
    /// fits in 64 bits.
    pub open spec fn priority_fits(local: u32, remote: u32) -> bool {
        pair_priority_value(local, remote) <= u64::MAX
    }

    /// Pairs two candidates.
    pub fn new(local: Candidate, remote: Candidate) -> (p: Self)
        ensures
            p == fresh_pair(local, remote),
    {
        let priority = Self::calculate_pair_priority(&local, &remote);
        Self {
            local,
            remote,
            priority,
            state: CandidatePairState::Frozen,
            nominated: false,
            last_check: None,
            round_trip_time: None,
        }
    }

    fn calculate_pair_priority(local: &Candidate, remote: &Candidate) -> (p: u64)
        ensures
            p == pair_priority_of(local.priority, remote.priority),
    {
        let (g, d): (u64, u64) = if local.priority >= remote.priority {
            (local.priority as u64, remote.priority as u64)
        } else {
            (remote.priority as u64, local.priority as u64)
        };
        let tie: u64 = if g > d {
            1
        } else {
            0
        };
        let high: u64 = 0x1_0000_0000 * d;
        match high.checked_add(2 * g + tie) {
            Some(p) => p,
            None => u64::MAX,
        }
    }

    /// A copy of the pair.
    pub fn duplicate(&self) -> (p: Self)
        ensures
            p == *self,
    {
        Self {
            local: self.local.duplicate(),
            remote: self.remote.duplicate(),
            priority: self.priority,
            state: self.state,
            nominated: self.nominated,
            last_check: self.last_check,
            round_trip_time: self.round_trip_time,
        }
    }

    /// Whether the pair awaits a check or is being checked.
    pub open spec fn spec_is_pending(&self) -> bool {
        self.state == CandidatePairState::Waiting || self.state == CandidatePairState::InProgress
    }

    /// Whether the pair awaits a check or is being checked.
    #[verifier::when_used_as_spec(spec_is_pending)]
    pub fn is_pending(&self) -> (b: bool)
        ensures
            b == self.spec_is_pending(),
    {
        self.state == CandidatePairState::Waiting || self.state == CandidatePairState::InProgress
    }
}

/// The priority of a pair fits in 64 bits unless both candidates have the
/// highest priority there is; where it fits, the pair holds the value of
/// the formula.
pub proof fn lemma_pair_priority_fits(local: u32, remote: u32)
    ensures
        CandidatePair::priority_fits(local, remote) <==> !(local == u32::MAX && remote
            == u32::MAX),
        CandidatePair::priority_fits(local, remote) ==> pair_priority_of(local, remote)
            == pair_priority_value(local, remote),
{
}

/// Pair symmetry: two candidates paired either way round give a pair of the
/// same priority, frozen, not nominated and never checked, whatever the two
/// candidates.
pub proof fn lemma_pair_is_symmetric(a: Candidate, b: Candidate)
    ensures
        fresh_pair(a, b).priority == fresh_pair(b, a).priority,
        fresh_pair(a, b).state == CandidatePairState::Frozen,
        !fresh_pair(a, b).nominated,
        fresh_pair(a, b).last_check is None,
        fresh_pair(a, b).round_trip_time is None,
{
    lemma_pair_priority_symmetric(a.priority, b.priority);
}

/// Whether the pairs are in descending order of priority.
pub open spec fn sorted_by_priority(pairs: Seq<CandidatePair>) -> bool {
    forall|i: int, j: int| 0 <= i < j < pairs.len() ==> pairs[i].priority >= pairs[j].priority
}

/// Whether some pair joins these two connection addresses.
pub open spec fn has_pair(pairs: Seq<CandidatePair>, local: SocketAddress, remote: SocketAddress) -> bool {
    exists|k: int|
        0 <= k < pairs.len() && (#[trigger] pairs[k]).local.connection_addr == local
            && pairs[k].remote.connection_addr == remote
}

/// Number of pairs at the head of the list whose priority is at least `priority`.
pub open spec fn rank(pairs: Seq<CandidatePair>, priority: u64) -> int
    decreases pairs.len(),
{
    if pairs.len() > 0 && pairs[0].priority >= priority {
        1 + rank(pairs.drop_first(), priority)
    } else {
        0
    }
}

/// The list with `pair` put behind the last pair of at least its priority.
pub open spec fn insert_by_priority(pairs: Seq<CandidatePair>, pair: CandidatePair) -> Seq<CandidatePair> {
    pairs.insert(rank(pairs, pair.priority), pair)
}

/// The list after pairing `local` with `remote`: unchanged if a pair joins
/// their connection addresses already, else with the fresh pair put in by priority.
pub open spec fn with_pair(pairs: Seq<CandidatePair>, local: Candidate, remote: Candidate) -> Seq<CandidatePair> {
    if has_pair(pairs, local.connection_addr, remote.connection_addr) {
        pairs
    } else {
        insert_by_priority(pairs, fresh_pair(local, remote))
    }
}

/// The list after pairing `local` with the first `n` of `remotes`, in order.
pub open spec fn with_remotes(
    pairs: Seq<CandidatePair>,
    local: Candidate,
    remotes: Seq<Candidate>,
    n: nat,
) -> Seq<CandidatePair>
    decreases n,
{
    if n == 0 {
        pairs
    } else {
        with_pair(with_remotes(pairs, local, remotes, (n - 1) as nat), local, remotes[n - 1])
    }
}

/// The list after pairing the first `n` of `locals` with every one of
/// `remotes`, local by local.
pub open spec fn with_locals(
    pairs: Seq<CandidatePair>,
    locals: Seq<Candidate>,
    remotes: Seq<Candidate>,
    n: nat,
) -> Seq<CandidatePair>
    decreases n,
{
    if n == 0 {
        pairs
    } else {
        with_remotes(
            with_locals(pairs, locals, remotes, (n - 1) as nat),
            locals[n - 1],
            remotes,
            remotes.len(),
        )
    }
}

proof fn lemma_rank_is(pairs: Seq<CandidatePair>, priority: u64, i: int)
    requires
        0 <= i <= pairs.len(),
        forall|j: int| 0 <= j < i ==> pairs[j].priority >= priority,
        i < pairs.len() ==> pairs[i].priority < priority,
    ensures
        rank(pairs, priority) == i,
    decreases pairs.len(),
{
    if i > 0 {
        assert forall|j: int| 0 <= j < i - 1 implies pairs.drop_first()[j].priority >= priority by {
            assert(pairs.drop_first()[j] == pairs[j + 1]);
        }
        lemma_rank_is(pairs.drop_first(), priority, i - 1);
    }
}

/// Whether some pair of `pairs` joins these two connection addresses.
fn pair_exists(
    pairs: &Vec<CandidatePair>,
    local: &SocketAddress,
    remote: &SocketAddress,
) -> (b: bool)
    ensures
        b == has_pair(pairs@, *local, *remote),
{
    let mut k: usize = 0;
    while k < pairs.len()
        invariant
            k <= pairs@.len(),
            forall|j: int|
                0 <= j < k ==> !((#[trigger] pairs@[j]).local.connection_addr == *local
                    && pairs@[j].remote.connection_addr == *remote),
        decreases pairs@.len() - k,
    {
        if pairs[k].local.connection_addr == *local && pairs[k].remote.connection_addr == *remote {
            return true;
        }
        k += 1;
    }
    false
}

/// Puts `pair` behind the last pair of at least its priority.
fn insert_pair(pairs: &mut Vec<CandidatePair>, pair: CandidatePair)
    requires
        sorted_by_priority(old(pairs)@),
    ensures
        final(pairs)@ == insert_by_priority(old(pairs)@, pair),
        sorted_by_priority(final(pairs)@),
{
    let mut i: usize = 0;
    while i < pairs.len() && pairs[i].priority >= pair.priority
        invariant
            i <= pairs@.len(),
            forall|j: int| 0 <= j < i ==> pairs@[j].priority >= pair.priority,
        decreases pairs@.len() - i,
    {
        i += 1;
    }
    proof {
        lemma_rank_is(pairs@, pair.priority, i as int);
    }
    pairs.insert(i, pair);
}

/// A TURN server as configured: where it is, and the credentials for it.
#[derive(Debug, Clone)]
pub struct TurnServer {
    pub url: String,
    pub username: Option<String>,
    pub password: Option<String>,
}

/// What an agent is configured with. The timeout is in milliseconds.
#[derive(Debug, Clone)]
pub struct IceConfig {
    pub stun_servers: Vec<String>,
    pub turn_servers: Vec<TurnServer>,
    pub local_preferences: u16,
    pub connectivity_timeout: u64,
    pub nomination_mode: NominationMode,
}

impl IceConfig {
    /// The two default STUN servers, no TURN server, the highest local
    /// preference, a five-second budget, aggressive nomination.
    pub open spec fn is_default(&self) -> bool {
        &&& self.stun_servers@.len() == 2
        &&& self.stun_servers@[0]@ == "stun.l.google.com:19302"@
        &&& self.stun_servers@[1]@ == "stun1.l.google.com:19302"@
        &&& self.turn_servers@.len() == 0
        &&& self.local_preferences == 65535
        &&& self.connectivity_timeout == ICE_CONNECTIVITY_TIMEOUT_MS
        &&& self.nomination_mode == NominationMode::Aggressive
    }
}

impl Default for IceConfig {
    fn default() -> (c: Self)
        ensures
            c.is_default(),
    {
        let mut stun_servers: Vec<String> = Vec::new();
        stun_servers.push("stun.l.google.com:19302".to_owned());
        stun_servers.push("stun1.l.google.com:19302".to_owned());
        Self {
            stun_servers,
            turn_servers: Vec::new(),
            local_preferences: 65535,
            connectivity_timeout: ICE_CONNECTIVITY_TIMEOUT_MS,
            nomination_mode: NominationMode::Aggressive,
        }
    }
}

/// What the agent asks its driver to do next during connectivity checks.
#[derive(Debug, Clone, Copy, PartialEq, Eq, Structural)]
pub enum CheckStep {
    /// Bind a UDP socket on `local`, send a binding request to `remote`, wait
    /// for the answer up to the check deadline, then report with
    /// [`IceAgent::record_check`].
    Probe { index: usize, local: SocketAddress, remote: SocketAddress },
    /// Sleep for the check interval, then ask again.
    Pause,
    /// The checks are over: finalize the selection.
    Done
}

/// One agent per attempted connection.
pub struct IceAgent {
    config: IceConfig,
    role: IceRole,
    local_candidates: Vec<Candidate>,
    remote_candidates: Vec<Candidate>,
    candidate_pairs: Vec<CandidatePair>,
    checklist: Vec<CandidatePair>,
    selected_pair: Option<CandidatePair>,
    state: ConnectionState,
    tie_breaker: u64,
    component_id: u16,
    checks_started: u64,
    round: Vec<usize>,
    cursor: usize,
    in_round: bool,
}

/// An agent as plain values.
pub struct IceAgentView {
    pub config: IceConfig,
    pub role: IceRole,
    pub locals: Seq<Candidate>,
    pub remotes: Seq<Candidate>,
    pub pairs: Seq<CandidatePair>,
    pub checklist: Seq<CandidatePair>,
    pub selected: Option<CandidatePair>,
    pub state: ConnectionState,
    pub tie_breaker: u64,
    pub component_id: u16,
    pub checks_started: u64,
    pub round: Seq<usize>,
    pub cursor: int,
    pub in_round: bool,
}

impl View for IceAgent {
    type V = IceAgentView;

    closed spec fn view(&self) -> IceAgentView {
        IceAgentView {
            config: self.config,
            role: self.role,
            locals: self.local_candidates@,
            remotes: self.remote_candidates@,
            pairs: self.candidate_pairs@,
            checklist: self.checklist@,
            selected: self.selected_pair,
            state: self.state,
            tie_breaker: self.tie_breaker,
            component_id: self.component_id,
            checks_started: self.checks_started,
            round: self.round@,
            cursor: self.cursor as int,
            in_round: self.in_round,
        }
    }
}

impl IceAgentView {
    /// What the agent keeps true of itself: local candidates have priorities
    /// below `2^31`, the pairs and the checklist are in descending order of
    /// priority, and the current round of checks points into the checklist.
    pub open spec fn wf(&self) -> bool {
        &&& forall|i: int| 0 <= i < self.locals.len() ==> (#[trigger] self.locals[i]).priority < 0x8000_0000
        &&& sorted_by_priority(self.pairs)
        &&& sorted_by_priority(self.checklist)
        &&& 0 <= self.cursor <= self.round.len()
        &&& forall|i: int| 0 <= i < self.round.len() ==> (#[trigger] self.round[i]) < self.checklist.len()
    }
}

/// The checklist drawn from `pairs`: the same pairs, where the first pair of
/// each local foundation waits and every other pair keeps its state.
pub open spec fn checklist_of(pairs: Seq<CandidatePair>) -> Seq<CandidatePair> {
    Seq::new(
        pairs.len(),
        |k: int|
            if first_of_foundation(pairs, k) {
                CandidatePair { state: CandidatePairState::Waiting, ..pairs[k] }
            } else {
                pairs[k]
            },
    )
}

/// What `first_succeeded` finds from the start of the checklist: a
/// succeeded pair with no succeeded pair before it; and in a checklist in
/// descending order of priority no succeeded pair has a higher priority.
pub proof fn lemma_first_succeeded_is_best(checklist: Seq<CandidatePair>, from: int)
    requires
        0 <= from,
    ensures
        match first_succeeded(checklist, from) {
            Some(best) => {
                &&& from <= best < checklist.len()
                &&& checklist[best].state == CandidatePairState::Succeeded
                &&& forall|j: int|
                    from <= j < best ==> (#[trigger] checklist[j]).state
                        != CandidatePairState::Succeeded
                &&& sorted_by_priority(checklist) ==> forall|j: int|
                    from <= j < checklist.len() && (#[trigger] checklist[j]).state
                        == CandidatePairState::Succeeded ==> checklist[j].priority
                        <= checklist[best].priority
            },
            None => forall|j: int|
                from <= j < checklist.len() ==> (#[trigger] checklist[j]).state
                    != CandidatePairState::Succeeded,
        },
    decreases checklist.len() - from,
{
    if from < checklist.len() && checklist[from].state != CandidatePairState::Succeeded {
        lemma_first_succeeded_is_best(checklist, from + 1);
    }
}

/// Whether no pair before position `k` has the local foundation of the pair at `k`.
pub open spec fn first_of_foundation(pairs: Seq<CandidatePair>, k: int) -> bool {
    forall|j: int| 0 <= j < k ==> (#[trigger] pairs[j]).local.foundation@ != pairs[k].local.foundation@
}

/// The address of the relay server that a configured URL denotes: the URL
/// itself where it is a socket address; the URL with the default port where
/// it is a bare address; otherwise what its first field between colons
/// denotes as a host, with the port that its second field denotes or else
/// the default port.
pub open spec fn turn_url_address(url: Seq<char>) -> Option<SocketAddress> {
    if socket_addr_of(url) is Some {
        socket_addr_of(url)
    } else if ip_of(url) is Some {
        Some(SocketAddress { ip: ip_of(url)->0, port: DEFAULT_TURN_PORT })
    } else {
        let f = crate::text::fields(url, ':');
        let port = if f.len() >= 2 && bounded(f[1], 0xffff) is Some {
            bounded(f[1], 0xffff)->0 as u16
        } else {
            DEFAULT_TURN_PORT
        };
        host_address_of(f[0], port)
    }
}

/// Whether a candidate is the relayed candidate of a simulated relay's
/// address on `server`.
pub open spec fn relayed_through(c: CandidateView, server: SocketAddress, component_id: u16) -> bool {
    is_relay_address(c.connection_addr) && c == relayed_view(c.connection_addr, server, component_id)
}

/// Whether a configured relay server comes with both credentials.
pub open spec fn has_credentials(server: TurnServer) -> bool {
    server.username is Some && server.password is Some
}

/// The relay servers to allocate on, from position `from` of the configured
/// ones on: the addresses of those that have credentials, in order, up to
/// the first whose URL denotes no address; and whether such a one was met.
pub open spec fn relay_plan(servers: Seq<TurnServer>, from: int) -> (Seq<SocketAddress>, bool)
    decreases servers.len() - from,
{
    if from < 0 || from >= servers.len() {
        (Seq::empty(), true)
    } else if !has_credentials(servers[from]) {
        relay_plan(servers, from + 1)
    } else {
        match turn_url_address(servers[from].url@) {
            Some(addr) => {
                let rest = relay_plan(servers, from + 1);
                (seq![addr] + rest.0, rest.1)
            },
            None => (Seq::empty(), false),
        }
    }
}

/// Resolves the URL of a configured relay server.
pub fn resolve_turn_url(url: &str) -> (r: Result<SocketAddress, Error>)
    ensures
        match r {
            Ok(addr) => turn_url_address(url@) == Some(addr),
            Err(e) => turn_url_address(url@) is None && exists|host: Seq<char>|
                e.is_network(#[trigger] reason_invalid_server(host))
            },
{
    let chars = chars_of(url);
    match parse_socket_addr(chars.as_slice()) {
        Some(addr) => {
            return Ok(addr);
        },
        None => {},
    }
    match parse_ip(chars.as_slice()) {
        Some(ip) => {
            return Ok(SocketAddress::new(ip, DEFAULT_TURN_PORT));
        },
        None => {},
    }
    let f = crate::text::split(chars.as_slice(), ':');
    let port: Option<u16> = if f.len() >= 2 {
        match parse_bounded(f[1].as_slice(), 0xffff) {
            Some(p) => Some(p as u16),
            None => None,
        }
    } else {
        None
    };
    let host = string_of(f[0].as_slice());
    match crate::turn::TurnServer::from_host(host.as_str(), port) {
        Ok(server) => Ok(server.address),
        Err(e) => {
            assert(e.is_network(reason_invalid_server(host@)));
            Err(e)
        },
    }
}

/// The candidate lines of the first `n` candidates, with a line feed
/// between two lines.
pub open spec fn local_sdp(locals: Seq<Candidate>, n: nat) -> Seq<char>
    decreases n,
{
    if n == 0 {
        Seq::empty()
    } else if n == 1 {
        sdp_line(locals[0]@)
    } else {
        local_sdp(locals, (n - 1) as nat) + seq!['\n'] + sdp_line(locals[n - 1]@)
    }
}

/// The positions, in ascending order, of the pending pairs among the first `n`.
pub open spec fn pending_upto(checklist: Seq<CandidatePair>, n: nat) -> Seq<usize>
    decreases n,
{
    if n == 0 {
        Seq::empty()
    } else if checklist[n - 1].spec_is_pending() {
        pending_upto(checklist, (n - 1) as nat).push((n - 1) as usize)
    } else {
        pending_upto(checklist, (n - 1) as nat)
    }
}

/// Position of the first succeeded pair at or after `from`, if there is one.
pub open spec fn first_succeeded(checklist: Seq<CandidatePair>, from: int) -> Option<int>
    decreases checklist.len() - from,
{
    if from < 0 || from >= checklist.len() {
        None
    } else if checklist[from].state == CandidatePairState::Succeeded {
        Some(from)
    } else {
        first_succeeded(checklist, from + 1)
    }
}

/// A pair as its probe starts at `now`.
pub open spec fn probing(pair: CandidatePair, now: u64) -> CandidatePair {
    CandidatePair { state: CandidatePairState::InProgress, last_check: Some(now), ..pair }
}

/// A pair after the expected peer answered within `rtt` milliseconds.
pub open spec fn succeeded(pair: CandidatePair, rtt: u64, nominated: bool) -> CandidatePair {
    CandidatePair {
        state: CandidatePairState::Succeeded,
        round_trip_time: Some(rtt),
        nominated: if nominated {
            true
        } else {
            pair.nominated
        },
        ..pair
    }
}

/// A pair after its probe got no answer in time, or one from elsewhere.
pub open spec fn failed(pair: CandidatePair) -> CandidatePair {
    CandidatePair { state: CandidatePairState::Failed, ..pair }
}

/// Time passed since the checks began, in milliseconds; a clock that reads
/// earlier counts as none.
pub open spec fn elapsed(v: IceAgentView, now: u64) -> int {
    if now >= v.checks_started {
        now - v.checks_started
    } else {
        0
    }
}

/// The decision of the agent at `now` and the agent after it.
///
/// Within a round, the next pair of the round goes into progress and is to
/// be probed from its local base towards its remote connection address; a
/// round that is through ends with a pause. Between rounds, the checks are
/// done once the budget is spent or no pair is pending; otherwise the pending
/// pairs make up the next round and the first of them is probed.
pub open spec fn check_step(v: IceAgentView, now: u64) -> (IceAgentView, CheckStep) {
    if v.in_round {
        round_step(v, now)
    } else if elapsed(v, now) >= v.config.connectivity_timeout {
        (v, CheckStep::Done)
    } else if pending_upto(v.checklist, v.checklist.len()).len() == 0 {
        (v, CheckStep::Done)
    } else {
        round_step(
            IceAgentView {
                round: pending_upto(v.checklist, v.checklist.len()),
                cursor: 0,
                in_round: true,
                ..v
            },
            now,
        )
    }
}

/// The decision within a round.
pub open spec fn round_step(v: IceAgentView, now: u64) -> (IceAgentView, CheckStep) {
    if v.cursor < v.round.len() {
        let index = v.round[v.cursor];
        let pair = v.checklist[index as int];
        (
            IceAgentView { checklist: v.checklist.update(index as int, probing(pair, now)), ..v },
            CheckStep::Probe {
                index,
                local: pair.local.base_addr,
                remote: pair.remote.connection_addr,
            },
        )
    } else {
        (IceAgentView { in_round: false, ..v }, CheckStep::Pause)
    }
}

/// The agent after the outcome of the probe of the pair at `index`.
///
/// An outcome for anything but the pair that the round is at changes
/// nothing. An answer makes the pair succeeded with its round-trip time;
/// under aggressive nomination the pair is also nominated and selected, and
/// the round is cut short. No answer makes the pair failed. Otherwise the
/// round moves on by one pair.
pub open spec fn check_recorded(v: IceAgentView, index: usize, rtt: Option<u64>) -> IceAgentView {
    if !(v.in_round && v.cursor < v.round.len() && v.round[v.cursor] == index) {
        v
    } else {
        let pair = v.checklist[index as int];
        match rtt {
            Some(t) => {
                let aggressive = v.config.nomination_mode == NominationMode::Aggressive;
                let done = succeeded(pair, t, aggressive);
                IceAgentView {
                    checklist: v.checklist.update(index as int, done),
                    selected: if aggressive {
                        Some(done)
                    } else {
                        v.selected
                    },
                    cursor: if aggressive {
                        v.round.len() as int
                    } else {
                        v.cursor + 1
                    },
                    ..v
                }
            },
            None => IceAgentView {
                checklist: v.checklist.update(index as int, failed(pair)),
                cursor: v.cursor + 1,
                ..v
            },
        }
    }
}

impl IceAgent {
    /// A new agent: controlling, component 1, nothing gathered, with the
    /// given configuration or the default one and a random tie-breaker.
    pub fn new(config: Option<IceConfig>) -> (a: Self)
        ensures
            a@.wf(),
            a@.role == IceRole::Controlling,
            a@.locals.len() == 0,
            a@.remotes.len() == 0,
            a@.pairs.len() == 0,
            a@.checklist.len() == 0,
            a@.selected is None,
            a@.state == ConnectionState::New,
            a@.component_id == 1,
            !a@.in_round,
            match config {
                Some(c) => a@.config == c,
                None => a@.config.is_default(),
            },
    {
        let config = match config {
            Some(c) => c,
            None => IceConfig::default(),
        };
        Self {
            config,
            role: IceRole::Controlling,
            local_candidates: Vec::new(),
            remote_candidates: Vec::new(),
            candidate_pairs: Vec::new(),
            checklist: Vec::new(),
            selected_pair: None,
            state: ConnectionState::New,
            tie_breaker: random_u64(),
            component_id: 1,
            checks_started: 0,
            round: Vec::new(),
            cursor: 0,
            in_round: false,
        }
    }

    /// The same agent in another role.
    pub fn with_role(self, role: IceRole) -> (a: Self)
        ensures
            a@ == (IceAgentView { role, ..self@ }),
    {
        let mut a = self;
        a.role = role;
        a
    }

    /// The same agent for another component.
    pub fn with_component(self, component_id: u16) -> (a: Self)
        ensures
            a@ == (IceAgentView { component_id, ..self@ }),
    {
        let mut a = self;
        a.component_id = component_id;
        a
    }

    /// The same agent with one more TURN server.
    pub fn with_turn_server(
        self,
        url: String,
        username: Option<String>,
        password: Option<String>,
    ) -> (a: Self)
        ensures
            a@ == (IceAgentView {
                config: IceConfig {
                    turn_servers: a@.config.turn_servers,
                    ..self@.config
                },
                ..self@
            }),
            a@.config.turn_servers@ == self@.config.turn_servers@.push(
                TurnServer { url, username, password },
            ),
    {
        let mut a = self;
        a.config.turn_servers.push(TurnServer { url, username, password });
        a
    }

    /// The same agent with these TURN servers in place of its own.
    pub fn with_turn_servers(self, servers: Vec<TurnServer>) -> (a: Self)
        ensures
            a@ == (IceAgentView {
                config: IceConfig { turn_servers: servers, ..self@.config },
                ..self@
            }),
    {
        let mut a = self;
        a.config.turn_servers = servers;
        a
    }

    /// Whether any TURN server is configured.
    pub fn has_turn_servers(&self) -> (b: bool)
        ensures
            b == (self@.config.turn_servers@.len() > 0),
    {
        self.config.turn_servers.len() > 0
    }

    /// The connection state.
    pub fn state(&self) -> (s: ConnectionState)
        ensures
            s == self@.state,
    {
        self.state
    }

    /// The selected pair, once there is one.
    pub fn selected_pair(&self) -> (p: Option<&CandidatePair>)
        ensures
            match p {
                Some(pair) => self@.selected == Some(*pair),
                None => self@.selected is None,
            },
    {
        self.selected_pair.as_ref()
    }

    /// The local candidates gathered so far.
    pub fn local_candidates(&self) -> (c: &[Candidate])
        ensures
            c@ == self@.locals,
    {
        self.local_candidates.as_slice()
    }

    /// The remote candidates learned so far.
    pub fn remote_candidates(&self) -> (c: &[Candidate])
        ensures
            c@ == self@.remotes,
    {
        self.remote_candidates.as_slice()
    }

    /// The pairs formed so far, in descending order of priority.
    pub fn candidate_pairs(&self) -> (p: &[CandidatePair])
        ensures
            p@ == self@.pairs,
    {
        self.candidate_pairs.as_slice()
    }

    /// The checklist.
    pub fn checklist(&self) -> (p: &[CandidatePair])
        ensures
            p@ == self@.checklist,
    {
        self.checklist.as_slice()
    }

    /// The role.
    pub fn role(&self) -> (r: IceRole)
        ensures
            r == self@.role,
    {
        self.role
    }

    /// The component that the agent gathers candidates for.
    pub fn component_id(&self) -> (c: u16)
        ensures
            c == self@.component_id,
    {
        self.component_id
    }

    /// The tie-breaker.
    pub fn tie_breaker(&self) -> (t: u64)
        ensures
            t == self@.tie_breaker,
    {
        self.tie_breaker
    }

    /// The base for a server-reflexive candidate: the connection address of
    /// the first host candidate on an IPv4 address that is neither loopback
    /// nor link-local, else of the first host candidate of any kind.
    pub open spec fn base_address_of(locals: Seq<Candidate>) -> Option<SocketAddress> {
        if exists|i: int| Self::routable_host(locals, i) {
            let i = choose|i: int| Self::routable_host(locals, i) && forall|j: int|
                0 <= j < i ==> !Self::routable_host(locals, j);
            Some(locals[i].connection_addr)
        } else if exists|i: int| Self::any_host(locals, i) {
            let i = choose|i: int| Self::any_host(locals, i) && forall|j: int|
                0 <= j < i ==> !Self::any_host(locals, j);
            Some(locals[i].connection_addr)
        } else {
            None
        }
    }

    /// Whether the candidate at `i` is a host candidate on a routable IPv4 address.
    pub open spec fn routable_host(locals: Seq<Candidate>, i: int) -> bool {
        &&& 0 <= i < locals.len()
        &&& locals[i].candidate_type == CandidateType::Host
        &&& locals[i].connection_addr.ip is V4
        &&& !locals[i].connection_addr.ip.spec_is_v4_loopback()
        &&& !locals[i].connection_addr.ip.spec_is_v4_link_local()
    }

    /// Whether the candidate at `i` is a host candidate.
    pub open spec fn any_host(locals: Seq<Candidate>, i: int) -> bool {
        0 <= i < locals.len() && locals[i].candidate_type == CandidateType::Host
    }

    /// Finds the base for a server-reflexive candidate.
    pub fn find_base_address(&self) -> (base: Option<SocketAddress>)
        ensures
            base == Self::base_address_of(self@.locals),
    {
        let mut i: usize = 0;
        while i < self.local_candidates.len()
            invariant
                i <= self.local_candidates@.len(),
                forall|j: int| 0 <= j < i ==> !Self::routable_host(self.local_candidates@, j),
            decreases self.local_candidates@.len() - i,
        {
            let c = &self.local_candidates[i];
            if c.candidate_type == CandidateType::Host && c.connection_addr.ip.is_ipv4()
                && !c.connection_addr.ip.is_v4_loopback() && !c.connection_addr.ip.is_v4_link_local() {
                proof {
                    let locals = self.local_candidates@;
                    assert(Self::routable_host(locals, i as int));
                    let w = choose|w: int| Self::routable_host(locals, w) && forall|j: int|
                        0 <= j < w ==> !Self::routable_host(locals, j);
                    assert(w == i);
                }
                return Some(c.connection_addr);
            }
            i += 1;
        }
        let mut k: usize = 0;
        while k < self.local_candidates.len()
            invariant
                k <= self.local_candidates@.len(),
                forall|j: int| !Self::routable_host(self.local_candidates@, j),
                forall|j: int| 0 <= j < k ==> !Self::any_host(self.local_candidates@, j),
            decreases self.local_candidates@.len() - k,
        {
            let c = &self.local_candidates[k];
            if c.candidate_type == CandidateType::Host {
                proof {
                    let locals = self.local_candidates@;
                    assert(Self::any_host(locals, k as int));
                    let w = choose|w: int| Self::any_host(locals, w) && forall|j: int|
                        0 <= j < w ==> !Self::any_host(locals, j);
                    assert(w == k);
                }
                return Some(c.connection_addr);
            }
            k += 1;
        }
        None
    }

    /// Records a host candidate on a local address that a socket was bound to.
    pub fn add_host_candidate(&mut self, addr: SocketAddress)
        requires
            old(self)@.wf(),
        ensures
            final(self)@.wf(),
            final(self)@ == (IceAgentView {
                locals: old(self)@.locals.push(final(self)@.locals.last()),
                ..old(self)@
            }),
            final(self)@.locals.last()@ == host_view(addr, old(self)@.component_id),
    {
        let candidate = Candidate::new_host(addr, self.component_id);
        self.local_candidates.push(candidate);
    }

    /// Records a server-reflexive candidate for the public address that a
    /// STUN server reported, if a base for it can be found among the host
    /// candidates; tells whether it did.
    pub fn add_server_reflexive_candidate(&mut self, public_addr: SocketAddress) -> (added: bool)
        requires
            old(self)@.wf(),
        ensures
            final(self)@.wf(),
            added == Self::base_address_of(old(self)@.locals) is Some,
            !added ==> final(self)@ == old(self)@,
            added ==> final(self)@ == (IceAgentView {
                locals: old(self)@.locals.push(final(self)@.locals.last()),
                ..old(self)@
            }) && final(self)@.locals.last()@ == server_reflexive_view(
                public_addr,
                Self::base_address_of(old(self)@.locals)->0,
                old(self)@.component_id,
            ),
    {
        match self.find_base_address() {
            Some(base) => {
                let candidate = Candidate::new_server_reflexive(public_addr, base, self.component_id);
                self.local_candidates.push(candidate);
                true
            },
            None => false,
        }
    }

    /// Records a relayed candidate for an address that a TURN server
    /// allocated. An agent for a component beyond 256 records nothing, since
    /// no priority exists for such a candidate; tells whether it recorded.
    pub fn add_relayed_candidate(
        &mut self,
        relay_addr: SocketAddress,
        server_addr: SocketAddress,
    ) -> (added: bool)
        requires
            old(self)@.wf(),
        ensures
            final(self)@.wf(),
            added == (old(self)@.component_id <= 256),
            !added ==> final(self)@ == old(self)@,
            added ==> final(self)@ == (IceAgentView {
                locals: old(self)@.locals.push(final(self)@.locals.last()),
                ..old(self)@
            }) && final(self)@.locals.last()@ == relayed_view(
                relay_addr,
                server_addr,
                old(self)@.component_id,
            ),
    {
        if self.component_id > 256 {
            return false;
        }
        let candidate = Candidate::new_relayed(relay_addr, server_addr, self.component_id);
        self.local_candidates.push(candidate);
        true
    }

    /// Gathers a relayed candidate from every configured relay server that
    /// has credentials, drawing each relayed address at random.
    ///
    /// The servers are taken in order as [`relay_plan`] says. A server whose
    /// URL denotes no address ends the gathering with an error; the
    /// candidates gathered before it stay. The agent must be for a component
    /// no greater than 256, since no relayed priority exists beyond.
    pub fn gather_relayed_candidates(&mut self) -> (r: Result<(), Error>)
        requires
            old(self)@.wf(),
            old(self)@.component_id <= 256,
        ensures
            final(self)@.wf(),
            final(self)@ == (IceAgentView { locals: final(self)@.locals, ..old(self)@ }),
            r is Ok == relay_plan(old(self)@.config.turn_servers@, 0).1,
            ({
                let plan = relay_plan(old(self)@.config.turn_servers@, 0).0;
                let n = old(self)@.locals.len();
                &&& final(self)@.locals.len() == n + plan.len()
                &&& final(self)@.locals.subrange(0, n as int) == old(self)@.locals
                &&& forall|k: int|
                    0 <= k < plan.len() ==> relayed_through(
                        (#[trigger] final(self)@.locals[n + k])@,
                        plan[k],
                        old(self)@.component_id,
                    )
            }),
    {
        let ghost servers = self.config.turn_servers@;
        let ghost n = self.local_candidates@.len();
        let ghost mut done: Seq<SocketAddress> = Seq::empty();
        let mut i: usize = 0;
        assert(self.local_candidates@.subrange(0, n as int) =~= self.local_candidates@);
        while i < self.config.turn_servers.len()
            invariant
                i <= servers.len(),
                n == old(self)@.locals.len(),
                servers == old(self)@.config.turn_servers@,
                self@.wf(),
                self@.component_id <= 256,
                self@ == (IceAgentView { locals: self@.locals, ..old(self)@ }),
                self@.locals.len() == n + done.len(),
                self@.locals.subrange(0, n as int) == old(self)@.locals,
                forall|k: int|
                    0 <= k < done.len() ==> relayed_through(
                        (#[trigger] self@.locals[n + k])@,
                        done[k],
                        self@.component_id,
                    ),
                relay_plan(servers, 0) == (
                    done + relay_plan(servers, i as int).0,
                    relay_plan(servers, i as int).1,
                ),
            decreases servers.len() - i,
        {
            let server = &self.config.turn_servers[i];
            if server.username.is_none() || server.password.is_none() {
                i += 1;
                continue ;
            }
            let address = match resolve_turn_url(server.url.as_str()) {
                Ok(a) => a,
                Err(e) => {
                    assert(relay_plan(servers, 0).0 =~= done);
                    return Err(e);
                },
            };
            let relay = crate::turn::relay_address(random_u16());
            let ghost before = self@.locals;
            let candidate = Candidate::new_relayed(relay, address, self.component_id);
            self.local_candidates.push(candidate);
            proof {
                let rest = relay_plan(servers, i + 1);
                assert(done + (seq![address] + rest.0) =~= done.push(address) + rest.0);
                assert(self@.locals.subrange(0, n as int) =~= before.subrange(0, n as int));
                assert forall|k: int| 0 <= k < done.push(address).len() implies relayed_through(
                    (#[trigger] self@.locals[n + k])@,
                    done.push(address)[k],
                    self@.component_id,
                ) by {
                    if k < done.len() {
                        assert(self@.locals[n + k] == before[n + k]);
                    }
                }
                done = done.push(address);
            }
            i += 1;
        }
        assert(relay_plan(servers, 0).0 =~= done);
        Ok(())
    }

    /// The candidate lines of the local candidates, one per line.
    pub fn get_local_sdp(&self) -> (sdp: String)
        ensures
            sdp@ == local_sdp(self@.locals, self@.locals.len()),
    {
        let mut out: Vec<char> = Vec::new();
        let mut i: usize = 0;
        while i < self.local_candidates.len()
            invariant
                i <= self.local_candidates@.len(),
                out@ == local_sdp(self.local_candidates@, i as nat),
            decreases self.local_candidates@.len() - i,
        {
            if i > 0 {
                out.push('\n');
            }
            let line = self.local_candidates[i].to_sdp();
            push_str(&mut out, line.as_str());
            i += 1;
        }
        string_of(out.as_slice())
    }

    /// Whether `candidate` is among the remote candidates, attribute for attribute.
    fn knows_remote(&self, candidate: &Candidate) -> (b: bool)
        ensures
            b == exists|i: int|
                0 <= i < self@.remotes.len() && (#[trigger] self@.remotes[i])@ == candidate@,
    {
        let mut i: usize = 0;
        while i < self.remote_candidates.len()
            invariant
                i <= self.remote_candidates@.len(),
                forall|j: int| 0 <= j < i ==> (#[trigger] self.remote_candidates@[j])@ != candidate@,
            decreases self.remote_candidates@.len() - i,
        {
            if self.remote_candidates[i].same_as(candidate) {
                assert(self@.remotes[i as int]@ == candidate@);
                return true;
            }
            i += 1;
        }
        false
    }

    /// What the agent is after pairs were formed from `before`: every local
    /// candidate paired with every remote one unless a pair joins their
    /// connection addresses already, the pairs in descending order of
    /// priority, the checklist drawn from them anew, and the state moved from
    /// `New` to `Checking` if the checklist is not empty.
    pub open spec fn formed(before: IceAgentView) -> IceAgentView {
        let pairs = with_locals(before.pairs, before.locals, before.remotes, before.locals.len());
        IceAgentView {
            pairs,
            checklist: checklist_of(pairs),
            state: if before.state == ConnectionState::New && pairs.len() > 0 {
                ConnectionState::Checking
            } else {
                before.state
            },
            round: Seq::empty(),
            cursor: 0,
            in_round: false,
            ..before
        }
    }

    /// Learns a remote candidate. One that is known already, attribute for
    /// attribute, changes nothing; a new one is recorded and pairs are formed.
    pub fn add_remote_candidate(&mut self, candidate: Candidate)
        requires
            old(self)@.wf(),
        ensures
            final(self)@.wf(),
            final(self)@ == Self::learned(old(self)@, candidate),
    {
        if !self.knows_remote(&candidate) {
            self.remote_candidates.push(candidate);
            self.form_candidate_pairs();
        }
    }

    /// What the agent is after it learned `candidate`: unchanged if the
    /// candidate is known already, attribute for attribute; otherwise with
    /// the candidate recorded and the pairs formed.
    pub open spec fn learned(before: IceAgentView, candidate: Candidate) -> IceAgentView {
        if exists|i: int| 0 <= i < before.remotes.len() && (#[trigger] before.remotes[i])@ == candidate@ {
            before
        } else {
            Self::formed(IceAgentView { remotes: before.remotes.push(candidate), ..before })
        }
    }

    /// What the agent is after it learned the first `n` of `candidates`, one
    /// after the other.
    pub open spec fn learned_all(
        before: IceAgentView,
        candidates: Seq<Candidate>,
        n: nat,
    ) -> IceAgentView
        decreases n,
    {
        if n == 0 {
            before
        } else {
            Self::learned(Self::learned_all(before, candidates, (n - 1) as nat), candidates[n - 1])
        }
    }

    /// Learns remote candidates one after the other.
    pub fn add_remote_candidates(&mut self, candidates: Vec<Candidate>)
        requires
            old(self)@.wf(),
        ensures
            final(self)@.wf(),
            final(self)@ == Self::learned_all(old(self)@, candidates@, candidates@.len()),
    {
        let mut i: usize = 0;
        while i < candidates.len()
            invariant
                i <= candidates@.len(),
                self@.wf(),
                self@ == Self::learned_all(old(self)@, candidates@, i as nat),
            decreases candidates@.len() - i,
        {
            self.add_remote_candidate(candidates[i].duplicate());
            i += 1;
        }
    }

    /// Forms the pairs of the local and remote candidates and draws the
    /// checklist anew.
    pub fn form_candidate_pairs(&mut self)
        requires
            old(self)@.wf(),
        ensures
            final(self)@.wf(),
            final(self)@ == Self::formed(old(self)@),
    {
        let mut i: usize = 0;
        while i < self.local_candidates.len()
            invariant
                i <= self.local_candidates@.len(),
                self@.wf(),
                self@ == (IceAgentView { pairs: self@.pairs, ..old(self)@ }),
                self@.pairs == with_locals(old(self)@.pairs, self@.locals, self@.remotes, i as nat),
            decreases self.local_candidates@.len() - i,
        {
            let ghost start = self@.pairs;
            let mut j: usize = 0;
            while j < self.remote_candidates.len()
                invariant
                    i < self.local_candidates@.len(),
                    j <= self.remote_candidates@.len(),
                    self@.wf(),
                    self@ == (IceAgentView { pairs: self@.pairs, ..old(self)@ }),
                    self@.pairs == with_remotes(start, self@.locals[i as int], self@.remotes, j as nat),
                decreases self.remote_candidates@.len() - j,
            {
                let local = &self.local_candidates[i];
                let remote = &self.remote_candidates[j];
                if !pair_exists(&self.candidate_pairs, &local.connection_addr, &remote.connection_addr) {
                    let pair = CandidatePair::new(local.duplicate(), remote.duplicate());
                    insert_pair(&mut self.candidate_pairs, pair);
                }
                j += 1;
            }
            i += 1;
        }
        self.update_checklist();
    }

    /// Draws the checklist from the pairs anew.
    fn update_checklist(&mut self)
        requires
            old(self)@.wf(),
        ensures
            final(self)@.wf(),
            final(self)@ == (IceAgentView {
                checklist: checklist_of(old(self)@.pairs),
                state: if old(self)@.state == ConnectionState::New && old(self)@.pairs.len() > 0 {
                    ConnectionState::Checking
                } else {
                    old(self)@.state
                },
                round: Seq::empty(),
                cursor: 0,
                in_round: false,
                ..old(self)@
            }),
    {
        let mut list: Vec<CandidatePair> = Vec::new();
        let mut k: usize = 0;
        while k < self.candidate_pairs.len()
            invariant
                k <= self.candidate_pairs@.len(),
                self@ == old(self)@,
                list@.len() == k,
                forall|m: int| 0 <= m < k ==> list@[m] == checklist_of(self@.pairs)[m],
            decreases self.candidate_pairs@.len() - k,
        {
            let mut pair = self.candidate_pairs[k].duplicate();
            let mut seen = false;
            let mut j: usize = 0;
            while j < k
                invariant
                    j <= k < self.candidate_pairs@.len(),
                    pair == self.candidate_pairs@[k as int],
                    seen == exists|m: int|
                        0 <= m < j && (#[trigger] self.candidate_pairs@[m]).local.foundation@
                            == pair.local.foundation@,
                decreases k - j,
            {
                if self.candidate_pairs[j].local.foundation == pair.local.foundation {
                    seen = true;
                }
                j += 1;
            }
            assert(seen == !first_of_foundation(self@.pairs, k as int));
            if !seen {
                pair.state = CandidatePairState::Waiting;
            }
            list.push(pair);
            k += 1;
        }
        assert(list@ =~= checklist_of(self@.pairs));
        assert(sorted_by_priority(list@)) by {
            assert forall|a: int, b: int| 0 <= a < b < list@.len() implies list@[a].priority
                >= list@[b].priority by {
                assert(list@[a].priority == self@.pairs[a].priority);
                assert(list@[b].priority == self@.pairs[b].priority);
            }
        }
        self.checklist = list;
        self.round = Vec::new();
        self.cursor = 0;
        self.in_round = false;
        if self.state == ConnectionState::New && self.checklist.len() > 0 {
            self.state = ConnectionState::Checking;
        }
    }

    /// Starts the connectivity checks at `now`: the budget runs from here.
    pub fn begin_checks(&mut self, now: u64)
        requires
            old(self)@.wf(),
        ensures
            final(self)@.wf(),
            final(self)@ == (IceAgentView {
                checks_started: now,
                round: Seq::empty(),
                cursor: 0,
                in_round: false,
                ..old(self)@
            }),
    {
        self.checks_started = now;
        self.round = Vec::new();
        self.cursor = 0;
        self.in_round = false;
    }

    /// Tells the driver what to do next at `now`, as [`check_step`] says.
    pub fn next_check_step(&mut self, now: u64) -> (step: CheckStep)
        requires
            old(self)@.wf(),
        ensures
            final(self)@.wf(),
            (final(self)@, step) == check_step(old(self)@, now),
    {
        if !self.in_round {
            let elapsed = now.saturating_sub(self.checks_started);
            if elapsed >= self.config.connectivity_timeout {
                return CheckStep::Done;
            }
            let pending = self.pending_pairs();
            if pending.len() == 0 {
                return CheckStep::Done;
            }
            self.round = pending;
            self.cursor = 0;
            self.in_round = true;
        }
        if self.cursor < self.round.len() {
            let index = self.round[self.cursor];
            let ghost before = self.checklist@;
            let pair = &mut self.checklist[index];
            pair.state = CandidatePairState::InProgress;
            pair.last_check = Some(now);
            let local = pair.local.base_addr;
            let remote = pair.remote.connection_addr;
            assert(self.checklist@ =~= before.update(index as int, probing(before[index as int], now)));
            CheckStep::Probe { index, local, remote }
        } else {
            self.in_round = false;
            CheckStep::Pause
        }
    }

    /// The positions of the pairs that await a check or are being checked.
    fn pending_pairs(&self) -> (pending: Vec<usize>)
        ensures
            pending@ == pending_upto(self@.checklist, self@.checklist.len()),
            forall|i: int| 0 <= i < pending@.len() ==> (#[trigger] pending@[i]) < self@.checklist.len(),
    {
        let mut pending: Vec<usize> = Vec::new();
        let mut k: usize = 0;
        while k < self.checklist.len()
            invariant
                k <= self.checklist@.len(),
                pending@ == pending_upto(self.checklist@, k as nat),
                forall|i: int| 0 <= i < pending@.len() ==> (#[trigger] pending@[i]) < k,
            decreases self.checklist@.len() - k,
        {
            if self.checklist[k].is_pending() {
                pending.push(k);
            }
            k += 1;
        }
        pending
    }

    /// Takes the outcome of the probe of the pair at `index`: the round-trip
    /// time in milliseconds if the expected peer answered in time, nothing if
    /// it did not. See [`check_recorded`].
    pub fn record_check(&mut self, index: usize, round_trip_time: Option<u64>)
        requires
            old(self)@.wf(),
        ensures
            final(self)@.wf(),
            final(self)@ == check_recorded(old(self)@, index, round_trip_time),
    {
        if !(self.in_round && self.cursor < self.round.len() && self.round[self.cursor] == index) {
            return ;
        }
        let ghost before = self.checklist@;
        match round_trip_time {
            Some(rtt) => {
                let aggressive = self.config.nomination_mode == NominationMode::Aggressive;
                let pair = &mut self.checklist[index];
                pair.state = CandidatePairState::Succeeded;
                pair.round_trip_time = Some(rtt);
                if aggressive {
                    pair.nominated = true;
                    self.selected_pair = Some(pair.duplicate());
                    self.cursor = self.round.len();
                } else {
                    self.cursor = self.cursor + 1;
                }
                assert(self.checklist@ =~= before.update(
                    index as int,
                    succeeded(before[index as int], rtt, aggressive),
                ));
            },
            None => {
                let pair = &mut self.checklist[index];
                pair.state = CandidatePairState::Failed;
                self.cursor = self.cursor + 1;
                assert(self.checklist@ =~= before.update(index as int, failed(before[index as int])));
            },
        }
    }

    /// Nominates the pair at `index` of the checklist and selects it. An
    /// index beyond the checklist changes nothing.
    pub fn nominate_pair(&mut self, index: usize)
        requires
            old(self)@.wf(),
        ensures
            final(self)@.wf(),
            final(self)@ == if index < old(self)@.checklist.len() {
                let pair = CandidatePair { nominated: true, ..old(self)@.checklist[index as int] };
                IceAgentView {
                    checklist: old(self)@.checklist.update(index as int, pair),
                    selected: Some(pair),
                    ..old(self)@
                }
            } else {
                old(self)@
            },
    {
        if index < self.checklist.len() {
            let ghost before = self.checklist@;
            let pair = &mut self.checklist[index];
            pair.nominated = true;
            self.selected_pair = Some(pair.duplicate());
            assert(self.checklist@ =~= before.update(
                index as int,
                CandidatePair { nominated: true, ..before[index as int] },
            ));
        }
    }

    /// Closes the checks. With no succeeded pair the agent fails. Otherwise
    /// the agent is connected, and if no pair was selected by nomination
    /// the first succeeded pair of the checklist is selected, than which no
    /// succeeded pair has a higher priority.
    pub fn finalize_selection(&mut self) -> (r: Result<(), Error>)
        requires
            old(self)@.wf(),
        ensures
            final(self)@.wf(),
            match first_succeeded(old(self)@.checklist, 0) {
                None => {
                    &&& r matches Err(e) && e.is_network("No valid candidate pairs found"@)
                    &&& final(self)@ == (IceAgentView {
                        state: ConnectionState::Failed,
                        ..old(self)@
                    })
                },
                Some(best) => {
                    &&& r is Ok
                    &&& forall|j: int|
                        0 <= j < old(self)@.checklist.len()
                            && (#[trigger] old(self)@.checklist[j]).state
                            == CandidatePairState::Succeeded
                            ==> old(self)@.checklist[j].priority
                            <= old(self)@.checklist[best].priority
                    &&& final(self)@ == (IceAgentView {
                        state: ConnectionState::Connected,
                        selected: if old(self)@.selected is None {
                            Some(old(self)@.checklist[best])
                        } else {
                            old(self)@.selected
                        },
                        ..old(self)@
                    })
                },
            },
    {
        let mut k: usize = 0;
        while k < self.checklist.len()
            invariant
                k <= self.checklist@.len(),
                self@ == old(self)@,
                self@.wf(),
                first_succeeded(self.checklist@, 0) == first_succeeded(self.checklist@, k as int),
            decreases self.checklist@.len() - k,
        {
            if self.checklist[k].state == CandidatePairState::Succeeded {
                proof {
                    lemma_first_succeeded_is_best(self.checklist@, 0);
                }
                if self.selected_pair.is_none() {
                    self.selected_pair = Some(self.checklist[k].duplicate());
                }
                self.state = ConnectionState::Connected;
                return Ok(());
            }
            k += 1;
        }
        self.state = ConnectionState::Failed;
        Err(Error::Network("No valid candidate pairs found".to_owned()))
    }

    /// The local base and remote connection address of the selected pair.
    pub fn get_selected_connection(&self) -> (c: Option<(SocketAddress, SocketAddress)>)
        ensures
            c == match self@.selected {
                Some(p) => Some((p.local.base_addr, p.remote.connection_addr)),
                None => None,
            },
    {
        match &self.selected_pair {
            Some(p) => Some((p.local.base_addr, p.remote.connection_addr)),
            None => None,
        }
    }

    /// The configuration.
    pub fn config(&self) -> (c: &IceConfig)
        ensures
            *c == self@.config,
    {
        &self.config
    }
}

} // verus!
