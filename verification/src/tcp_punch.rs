//! TCP hole punching: what a peer is told, and which step follows which.

use crate::addr::{IpAddress, SocketAddress};
use crate::error::Error;
use vstd::prelude::*;

verus! {

/// Time to wait for one connection attempt unless another is given, in
/// milliseconds.
pub const DEFAULT_PUNCH_TIMEOUT_MS: u64 = 10_000;

/// Pause between two rounds of simultaneous open, in milliseconds.
pub const PUNCH_RETRY_PAUSE_MS: u64 = 100;

/// How a TCP connection through the NAT came about.
#[derive(Debug, Clone, Copy, PartialEq, Eq, Structural)]
pub enum TcpPunchMethod {
    SimultaneousOpen,
    Sequential,
    Direct,
}

/// What a hole punch is configured with. A local port of zero asks for any
/// port. The timeout is in milliseconds.
#[derive(Debug, Clone)]
pub struct TcpHolePunchConfig {
    pub local_port: u16,
    pub remote_endpoints: Vec<SocketAddress>,
    pub timeout: u64,
    pub retry_count: u8,
}

impl Default for TcpHolePunchConfig {
    fn default() -> (c: Self)
        ensures
            c.local_port == 0,
            c.remote_endpoints@.len() == 0,
            c.timeout == DEFAULT_PUNCH_TIMEOUT_MS,
            c.retry_count == 3,
    {
        Self {
            local_port: 0,
            remote_endpoints: Vec::new(),
            timeout: DEFAULT_PUNCH_TIMEOUT_MS,
            retry_count: 3,
        }
    }
}

/// How a hole punch ended.
#[derive(Debug, Clone, Copy, PartialEq, Eq, Structural)]
pub struct TcpHolePunchResult {
    pub success: bool,
    pub connected_addr: Option<SocketAddress>,
    pub latency_ms: u64,
    pub method: TcpPunchMethod,
}

/// What the puncher asks its driver to do next.
#[derive(Debug, Clone, Copy, PartialEq, Eq, Structural)]
pub enum PunchStep {
    /// Race connections from the local port to every endpoint of the peer.
    /// `attempt` counts the rounds from zero.
    SimultaneousOpen { attempt: u8 },
    /// Sleep for the retry pause, then race again in round `next_attempt`.
    Pause { next_attempt: u8 },
    /// Try the endpoints of the peer one after the other.
    Sequential,
    /// The hole punch is over.
    Done { result: TcpHolePunchResult },
}

/// Reason of the error returned for a peer without endpoints.
pub open spec fn reason_no_endpoints() -> Seq<char> {
    "No peer endpoints provided"@
}

/// The endpoints that this host tells its peer: with a local port set, that
/// port on the unspecified address and on every interface; without one, or
/// without anything else to tell, port zero on the unspecified address.
pub open spec fn local_endpoints_of(local_port: u16, interfaces: Seq<IpAddress>) -> Seq<SocketAddress> {
    if local_port != 0 {
        seq![SocketAddress { ip: IpAddress::V4(0, 0, 0, 0), port: local_port }] + Seq::new(
            interfaces.len(),
            |i: int| SocketAddress { ip: interfaces[i], port: local_port },
        )
    } else {
        seq![SocketAddress { ip: IpAddress::V4(0, 0, 0, 0), port: 0 }]
    }
}

/// Decides the steps of a TCP hole punch.
pub struct TcpHolePuncher {
    config: TcpHolePunchConfig,
}

impl TcpHolePuncher {
    /// The configuration.
    pub closed spec fn spec_config(&self) -> TcpHolePunchConfig {
        self.config
    }

    /// A puncher with `config`.
    pub fn new(config: TcpHolePunchConfig) -> (p: Self)
        ensures
            p.spec_config() == config,
    {
        Self { config }
    }

    /// The configuration.
    pub fn config(&self) -> (c: &TcpHolePunchConfig)
        ensures
            *c == self.spec_config(),
    {
        &self.config
    }

    /// The local address to connect from: the configured port on the
    /// unspecified address.
    pub fn local_bind_address(&self) -> (a: SocketAddress)
        ensures
            a == (SocketAddress { ip: IpAddress::V4(0, 0, 0, 0), port: self.spec_config().local_port }),
    {
        SocketAddress::new(IpAddress::V4(0, 0, 0, 0), self.config.local_port)
    }

    /// The endpoints to tell the peer, given the addresses of the interfaces
    /// of this host.
    pub fn get_local_endpoints(&self, interfaces: &[IpAddress]) -> (endpoints: Vec<SocketAddress>)
        ensures
            endpoints@ == local_endpoints_of(self.spec_config().local_port, interfaces@),
    {
        let mut endpoints: Vec<SocketAddress> = Vec::new();
        let port = self.config.local_port;
        if port != 0 {
            endpoints.push(SocketAddress::new(IpAddress::V4(0, 0, 0, 0), port));
            let mut i: usize = 0;
            while i < interfaces.len()
                invariant
                    i <= interfaces@.len(),
                    endpoints@.len() == i + 1,
                    endpoints@[0] == (SocketAddress { ip: IpAddress::V4(0, 0, 0, 0), port }),
                    forall|j: int|
                        0 <= j < i ==> endpoints@[j + 1] == (SocketAddress { ip: interfaces@[j], port }),
                decreases interfaces@.len() - i,
            {
                endpoints.push(SocketAddress::new(interfaces[i], port));
                i += 1;
            }
        }
        if endpoints.len() == 0 {
            endpoints.push(SocketAddress::new(IpAddress::V4(0, 0, 0, 0), 0));
        }
        assert(endpoints@ =~= local_endpoints_of(port, interfaces@));
        endpoints
    }

    /// Whether the peer has told any endpoint to connect to.
    pub fn check_peer_endpoints(&self, peer_endpoints: &[SocketAddress]) -> (r: Result<(), Error>)
        ensures
            match r {
                Ok(()) => peer_endpoints@.len() > 0,
                Err(e) => peer_endpoints@.len() == 0 && e.is_network(reason_no_endpoints()),
            },
    {
        if peer_endpoints.len() == 0 {
            Err(Error::network("No peer endpoints provided"))
        } else {
            Ok(())
        }
    }

    /// The first step: a round of simultaneous open, or the sequential sweep
    /// at once where no round is configured.
    pub fn first_step(&self) -> (step: PunchStep)
        ensures
            step == if self.spec_config().retry_count == 0 {
                PunchStep::Sequential
            } else {
                PunchStep::SimultaneousOpen { attempt: 0 }
            },
    {
        if self.config.retry_count == 0 {
            PunchStep::Sequential
        } else {
            PunchStep::SimultaneousOpen { attempt: 0 }
        }
    }

    /// The step after round `attempt` of simultaneous open, given the
    /// address that it connected to, if it did, and the time passed since
    /// the punch began: a connection ends the punch with success; without
    /// one another round follows a pause while rounds are left, and the
    /// sequential sweep follows the last round.
    pub fn after_simultaneous_open(
        &self,
        attempt: u8,
        connected: Option<SocketAddress>,
        elapsed_ms: u64,
    ) -> (step: PunchStep)
        ensures
            step == match connected {
                Some(addr) => PunchStep::Done {
                    result: TcpHolePunchResult {
                        success: true,
                        connected_addr: Some(addr),
                        latency_ms: elapsed_ms,
                        method: TcpPunchMethod::SimultaneousOpen,
                    },
                },
                None => if attempt + 1 < self.spec_config().retry_count {
                    PunchStep::Pause { next_attempt: (attempt + 1) as u8 }
                } else {
                    PunchStep::Sequential
                },
            },
    {
        match connected {
            Some(addr) => PunchStep::Done {
                result: TcpHolePunchResult {
                    success: true,
                    connected_addr: Some(addr),
                    latency_ms: elapsed_ms,
                    method: TcpPunchMethod::SimultaneousOpen,
                },
            },
            None => {
                if attempt < 255 && attempt + 1 < self.config.retry_count {
                    PunchStep::Pause { next_attempt: attempt + 1 }
                } else {
                    PunchStep::Sequential
                }
            },
        }
    }

    /// How the punch ends after the sequential sweep, given the address that
    /// it connected to, if it did, and the time passed since the punch began.
    pub fn after_sequential(
        &self,
        connected: Option<SocketAddress>,
        elapsed_ms: u64,
    ) -> (result: TcpHolePunchResult)
        ensures
            result == match connected {
                Some(addr) => TcpHolePunchResult {
                    success: true,
                    connected_addr: Some(addr),
                    latency_ms: elapsed_ms,
                    method: TcpPunchMethod::Sequential,
                },
                None => TcpHolePunchResult {
                    success: false,
                    connected_addr: None,
                    latency_ms: elapsed_ms,
                    method: TcpPunchMethod::Direct,
                },
            },
    {
        match connected {
            Some(addr) => TcpHolePunchResult {
                success: true,
                connected_addr: Some(addr),
                latency_ms: elapsed_ms,
                method: TcpPunchMethod::Sequential,
            },
            None => TcpHolePunchResult {
                success: false,
                connected_addr: None,
                latency_ms: elapsed_ms,
                method: TcpPunchMethod::Direct,
            },
        }
    }
}

} // verus!
