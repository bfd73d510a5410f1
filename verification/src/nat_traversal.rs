//! The kinds of NAT, what was observed of this host, and the outcome of a
//! hole punch.

use crate::addr::{IpAddress, SocketAddress};
use crate::text::{chars_of, decimal, push_decimal, string_of};
use vstd::prelude::*;

verus! {

/// The kinds of NAT that a host may stand behind.
#[derive(Debug, Clone, Copy, PartialEq, Eq, Structural)]
pub enum NatType {
    Public,
    FullCone,
    RestrictedCone,
    PortRestricted,
    Symmetric,
    Unknown,
}

impl NatType {
    /// Hole punching works behind every kind of NAT but a symmetric and an
    /// unknown one.
    pub open spec fn hole_punchable(self) -> bool {
        self != NatType::Symmetric && self != NatType::Unknown
    }

    /// Whether a hole can be punched through a NAT of this kind.
    pub fn can_hole_punch(&self) -> (b: bool)
        ensures
            b == self.hole_punchable(),
    {
        match self {
            NatType::Public => true,
            NatType::FullCone => true,
            NatType::RestrictedCone => true,
            NatType::PortRestricted => true,
            NatType::Symmetric => false,
            NatType::Unknown => false,
        }
    }

    /// A few words on the kind of NAT.
    pub open spec fn spec_description(self) -> Seq<char> {
        match self {
            NatType::Public => "Public IP (no NAT)"@,
            NatType::FullCone => "Full Cone NAT (easiest for P2P)"@,
            NatType::RestrictedCone => "Restricted Cone NAT"@,
            NatType::PortRestricted => "Port Restricted NAT"@,
            NatType::Symmetric => "Symmetric NAT (requires TURN relay)"@,
            NatType::Unknown => "Unknown NAT type"@,
        }
    }

    /// A short description of the kind.
    pub fn description(&self) -> (d: &'static str)
        ensures
            d@ == self.spec_description(),
    {
        match self {
            NatType::Public => "Public IP (no NAT)",
            NatType::FullCone => "Full Cone NAT (easiest for P2P)",
            NatType::RestrictedCone => "Restricted Cone NAT",
            NatType::PortRestricted => "Port Restricted NAT",
            NatType::Symmetric => "Symmetric NAT (requires TURN relay)",
            NatType::Unknown => "Unknown NAT type",
        }
    }
}

/// How this host is seen from outside and what it sees of itself.
#[derive(Debug, Clone, Copy, PartialEq, Eq, Structural)]
pub struct ObservedAddr {
    pub public_ip: IpAddress,
    pub public_port: u16,
    pub local_ip: IpAddress,
    pub local_port: u16,
    pub nat_type: NatType,
}

impl ObservedAddr {
    /// What was observed: the public and the local address, and the kind of NAT.
    pub fn new(public: SocketAddress, local: SocketAddress, nat_type: NatType) -> (o: Self)
        ensures
            o == (ObservedAddr {
                public_ip: public.ip,
                public_port: public.port,
                local_ip: local.ip,
                local_port: local.port,
                nat_type,
            }),
    {
        Self {
            public_ip: public.ip,
            public_port: public.port,
            local_ip: local.ip,
            local_port: local.port,
            nat_type,
        }
    }

    /// The public address as a TCP multiaddress: `/ip4/<ip>/tcp/<port>`, or
    /// `/ip6/...` for an IPv6 address.
    pub open spec fn multiaddr(&self) -> Seq<char> {
        (if self.public_ip is V4 {
            "/ip4/"@
        } else {
            "/ip6/"@
        }) + self.public_ip.text() + "/tcp/"@ + decimal(self.public_port as nat)
    }

    /// The public address as a multiaddress over TCP.
    pub fn to_multiaddr(&self) -> (s: String)
        ensures
            s@ == self.multiaddr(),
    {
        let mut out = if self.public_ip.is_ipv4() {
            chars_of("/ip4/")
        } else {
            chars_of("/ip6/")
        };
        self.public_ip.push_text(&mut out);
        proof {
            reveal_strlit("/tcp/");
        }
        out.push('/');
        out.push('t');
        out.push('c');
        out.push('p');
        out.push('/');
        push_decimal(&mut out, self.public_port as u64);
        assert(out@ =~= self.multiaddr());
        string_of(out.as_slice())
    }
}

/// Which STUN servers to ask and how patiently. The timeout is in milliseconds.
#[derive(Debug, Clone)]
pub struct StunConfig {
    pub servers: Vec<String>,
    pub timeout: u64,
    pub retry_count: u32,
}

impl StunConfig {
    /// Whether this is the configuration that is taken where none is given:
    /// four public servers, five seconds, three tries.
    pub open spec fn is_default(&self) -> bool {
        &&& self.servers@.len() == 4
        &&& self.servers@[0]@ == "stun:stun.l.google.com:19302"@
        &&& self.servers@[1]@ == "stun:stun1.l.google.com:19302"@
        &&& self.servers@[2]@ == "stun:stun2.l.google.com:19302"@
        &&& self.servers@[3]@ == "stun:stun.stunprotocol.org:3478"@
        &&& self.timeout == 5_000
        &&& self.retry_count == 3
    }
}

impl Default for StunConfig {
    /// Four public servers, five seconds, three tries.
    fn default() -> (c: Self)
        ensures
            c.is_default(),
    {
        let mut servers: Vec<String> = Vec::new();
        servers.push("stun:stun.l.google.com:19302".to_owned());
        servers.push("stun:stun1.l.google.com:19302".to_owned());
        servers.push("stun:stun2.l.google.com:19302".to_owned());
        servers.push("stun:stun.stunprotocol.org:3478".to_owned());
        Self { servers, timeout: 5_000, retry_count: 3 }
    }
}

/// Finds out what kind of NAT this host is behind.
pub struct NatTraversal {
    config: StunConfig,
    observed_addr: Option<ObservedAddr>,
}

impl NatTraversal {
    /// The configuration.
    pub closed spec fn config(&self) -> StunConfig {
        self.config
    }

    /// What was observed, once something was.
    pub closed spec fn observed(&self) -> Option<ObservedAddr> {
        self.observed_addr
    }

    /// A traversal with `config`, or with the default one, that has observed
    /// nothing yet.
    pub fn new(config: Option<StunConfig>) -> (n: Self)
        ensures
            n.observed() is None,
            match config {
                Some(c) => n.config() == c,
                None => n.config().is_default(),
            },
    {
        let config = match config {
            Some(c) => c,
            None => StunConfig::default(),
        };
        Self { config, observed_addr: None }
    }

    /// The kind of NAT as far as this probe can tell, which is not at all.
    pub fn detect_nat_type(&mut self) -> (r: Result<NatType, crate::error::Error>)
        ensures
            r == Ok::<NatType, crate::error::Error>(NatType::Unknown),
            final(self).config() == old(self).config(),
            final(self).observed() == old(self).observed(),
    {
        Ok(NatType::Unknown)
    }

    /// Records what was observed.
    pub fn set_observed_address(&mut self, observed: ObservedAddr)
        ensures
            final(self).config() == old(self).config(),
            final(self).observed() == Some(observed),
    {
        self.observed_addr = Some(observed);
    }

    /// What was observed, if anything was.
    pub fn get_observed_address(&self) -> (o: Option<&ObservedAddr>)
        ensures
            match o {
                Some(a) => self.observed() == Some(*a),
                None => self.observed() is None,
            },
    {
        self.observed_addr.as_ref()
    }

    /// The STUN servers to ask, in order.
    pub fn get_stun_servers(&self) -> (s: &[String])
        ensures
            s@ == self.config().servers@,
    {
        self.config.servers.as_slice()
    }
}

/// The ways in which two peers may come to be connected.
#[derive(Debug, Clone, Copy, PartialEq, Eq, Structural)]
pub enum HolePunchMethod {
    Direct,
    TcpHolePunch,
    UdpHolePunch,
    Upnp,
    TurnRelay,
}

/// How an attempt to reach a peer ended.
#[derive(Debug, Clone, Copy, PartialEq, Eq, Structural)]
pub struct HolePunchResult {
    pub success: bool,
    pub local_addr: SocketAddress,
    pub remote_addr: SocketAddress,
    pub method: HolePunchMethod,
    pub latency_ms: u64,
}

impl HolePunchResult {
    /// A direct connection that was established.
    pub fn direct(local: SocketAddress, remote: SocketAddress, latency_ms: u64) -> (r: Self)
        ensures
            r == (HolePunchResult {
                success: true,
                local_addr: local,
                remote_addr: remote,
                method: HolePunchMethod::Direct,
                latency_ms,
            }),
    {
        Self {
            success: true,
            local_addr: local,
            remote_addr: remote,
            method: HolePunchMethod::Direct,
            latency_ms,
        }
    }

    /// A connection that was established by `method`.
    pub fn hole_punched(
        local: SocketAddress,
        remote: SocketAddress,
        method: HolePunchMethod,
        latency_ms: u64,
    ) -> (r: Self)
        ensures
            r == (HolePunchResult {
                success: true,
                local_addr: local,
                remote_addr: remote,
                method,
                latency_ms,
            }),
    {
        Self { success: true, local_addr: local, remote_addr: remote, method, latency_ms }
    }

    /// No connection: both addresses unspecified.
    pub fn failed() -> (r: Self)
        ensures
            r == (HolePunchResult {
                success: false,
                local_addr: SocketAddress { ip: IpAddress::V4(0, 0, 0, 0), port: 0 },
                remote_addr: SocketAddress { ip: IpAddress::V4(0, 0, 0, 0), port: 0 },
                method: HolePunchMethod::Direct,
                latency_ms: 0,
            }),
    {
        let nowhere = SocketAddress::new(IpAddress::V4(0, 0, 0, 0), 0);
        Self {
            success: false,
            local_addr: nowhere,
            remote_addr: nowhere,
            method: HolePunchMethod::Direct,
            latency_ms: 0,
        }
    }
}

/// The pairs of a local and a remote address to try a direct connection on,
/// in the order in which to try them: local by local, and remote by remote
/// for each.
pub open spec fn direct_attempts(locals: Seq<SocketAddress>, remotes: Seq<SocketAddress>) -> Seq<
    (SocketAddress, SocketAddress),
> {
    Seq::new(
        locals.len() * remotes.len(),
        |k: int| (locals[k / (remotes.len() as int)], remotes[k % (remotes.len() as int)]),
    )
}

/// What an attempt to reach a peer comes to, given the position of the first
/// direct attempt that connected, if one did, and the time that had passed
/// when it did: a direct result on that pair; a failure without one.
pub fn hole_punch_outcome(
    local_addrs: &[SocketAddress],
    remote_addrs: &[SocketAddress],
    connected: Option<(usize, u64)>,
) -> (r: HolePunchResult)
    ensures
        r == match connected {
            Some((k, latency_ms)) => if remote_addrs@.len() > 0 && k < local_addrs@.len()
                * remote_addrs@.len() {
                HolePunchResult {
                    success: true,
                    local_addr: direct_attempts(local_addrs@, remote_addrs@)[k as int].0,
                    remote_addr: direct_attempts(local_addrs@, remote_addrs@)[k as int].1,
                    method: HolePunchMethod::Direct,
                    latency_ms,
                }
            } else {
                HolePunchResult {
                    success: false,
                    local_addr: SocketAddress { ip: IpAddress::V4(0, 0, 0, 0), port: 0 },
                    remote_addr: SocketAddress { ip: IpAddress::V4(0, 0, 0, 0), port: 0 },
                    method: HolePunchMethod::Direct,
                    latency_ms: 0,
                }
            },
            None => HolePunchResult {
                success: false,
                local_addr: SocketAddress { ip: IpAddress::V4(0, 0, 0, 0), port: 0 },
                remote_addr: SocketAddress { ip: IpAddress::V4(0, 0, 0, 0), port: 0 },
                method: HolePunchMethod::Direct,
                latency_ms: 0,
            },
        },
{
    match connected {
        Some((k, latency_ms)) => {
            if remote_addrs.len() == 0 {
                return HolePunchResult::failed();
            }
            let li = k / remote_addrs.len();
            let ri = k % remote_addrs.len();
            if li >= local_addrs.len() {
                assert(k >= local_addrs@.len() * remote_addrs@.len()) by (nonlinear_arith)
                    requires
                        k / (remote_addrs@.len() as usize) >= local_addrs@.len(),
                        remote_addrs@.len() > 0,
                        remote_addrs@.len() <= usize::MAX,
                ;
                return HolePunchResult::failed();
            }
            assert(k < local_addrs@.len() * remote_addrs@.len()) by (nonlinear_arith)
                requires
                    k / (remote_addrs@.len() as usize) < local_addrs@.len(),
                    remote_addrs@.len() > 0,
                    remote_addrs@.len() <= usize::MAX,
            ;
            HolePunchResult::direct(local_addrs[li], remote_addrs[ri], latency_ms)
        },
        None => HolePunchResult::failed(),
    }
}

} // verus!
