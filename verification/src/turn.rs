//! Relay servers, allocations and permissions, and the client that keeps
//! them.

use crate::addr::{parse_socket_addr, socket_addr_of, IpAddress, SocketAddress};
use crate::error::Error;
use crate::ice::{Candidate, CandidateType};
use crate::random::random_u16;
use crate::text::{chars_of, decimal, push_decimal};
use crate::time::{duration_from_ms, duration_millis, duration_to_ms, wall_clock_ms};
use std::time::Duration;
use vstd::prelude::*;

verus! {

/// Port of a relay server unless another is given.
pub const DEFAULT_TURN_PORT: u16 = 3478;

/// Port of a relay server over TLS unless another is given.
pub const DEFAULT_TURN_TLS_PORT: u16 = 5349;

/// Lifetime of an allocation unless another is given, in seconds.
pub const TURN_LIFETIME_SECONDS: u32 = 600;

/// How long before its end an allocation is due for a refresh, in seconds.
pub const TURN_REFRESH_MARGIN_SECONDS: u32 = 60;

/// Lifetime of a permission, in milliseconds.
pub const TURN_PERMISSION_LIFETIME_MS: u64 = 300_000;

/// A relay server that is ready to be used.
#[derive(Debug, Clone)]
pub struct TurnServer {
    pub address: SocketAddress,
    pub use_tls: bool,
    pub realm: Option<String>,
}

impl TurnServer {
    /// The relay server at `address`, without TLS and without a realm.
    pub fn new(address: SocketAddress) -> (s: Self)
        ensures
            s.address == address,
            !s.use_tls,
            s.realm is None,
    {
        Self { address, use_tls: false, realm: None }
    }

    /// The same server, spoken to over TLS.
    pub fn with_tls(self) -> (s: Self)
        ensures
            s == (TurnServer { use_tls: true, ..self }),
    {
        let mut s = self;
        s.use_tls = true;
        s
    }

    /// The same server with `realm`.
    pub fn with_realm(self, realm: String) -> (s: Self)
        ensures
            s == (TurnServer { realm: Some(realm), ..self }),
    {
        let mut s = self;
        s.realm = Some(realm);
        s
    }

    /// The server on `ip` and `port`, or on the default port where none is given.
    pub fn from_ip(ip: IpAddress, port: Option<u16>) -> (s: Self)
        ensures
            s.address.ip == ip,
            s.address.port == match port {
                Some(p) => p,
                None => DEFAULT_TURN_PORT,
            },
            !s.use_tls,
            s.realm is None,
    {
        let port = match port {
            Some(p) => p,
            None => DEFAULT_TURN_PORT,
        };
        Self::new(SocketAddress::new(ip, port))
    }

    /// A copy of the server.
    pub fn duplicate(&self) -> (s: Self)
        ensures
            s == *self,
    {
        Self {
            address: self.address,
            use_tls: self.use_tls,
            realm: match &self.realm {
                Some(r) => Some(r.clone()),
                None => None,
            },
        }
    }
}

/// The socket address that a host text and a port denote: the host text
/// itself where it is a socket address already, else the host text, a colon
/// and the port in decimal, read as a socket address.
pub open spec fn host_address_of(host: Seq<char>, port: u16) -> Option<SocketAddress> {
    if socket_addr_of(host) is Some {
        socket_addr_of(host)
    } else {
        socket_addr_of(host + seq![':'] + decimal(port as nat))
    }
}

/// Reason of the error returned for a host text that denotes no address.
pub open spec fn reason_invalid_server(host: Seq<char>) -> Seq<char> {
    "Invalid TURN server address '"@ + host + "'"@
}

impl TurnServer {
    /// The server that a host text and a port denote, the default port where
    /// none is given.
    pub fn from_host(host: &str, port: Option<u16>) -> (r: Result<Self, Error>)
        ensures
            match r {
                Ok(s) => Some(s.address) == host_address_of(
                    host@,
                    match port {
                        Some(p) => p,
                        None => DEFAULT_TURN_PORT,
                    },
                ) && !s.use_tls && s.realm is None,
                Err(e) => host_address_of(
                    host@,
                    match port {
                        Some(p) => p,
                        None => DEFAULT_TURN_PORT,
                    },
                ) is None && e.is_network(reason_invalid_server(host@))},
    {
        let port = match port {
            Some(p) => p,
            None => DEFAULT_TURN_PORT,
        };
        let chars = chars_of(host);
        match parse_socket_addr(chars.as_slice()) {
            Some(addr) => Ok(Self::new(addr)),
            None => {
                let mut resolved = chars_of(host);
                resolved.push(':');
                push_decimal(&mut resolved, port as u64);
                assert(resolved@ =~= host@ + seq![':'] + decimal(port as nat));
                match parse_socket_addr(resolved.as_slice()) {
                    Some(addr) => Ok(Self::new(addr)),
                    None => {
                        let mut reason = "Invalid TURN server address '".to_owned();
                        reason.append(host);
                        reason.append("'");
                        Err(Error::Network(reason))
                    },
                }
            },
        }
    }
}

/// A relayed address that a server has granted. Instants and lifetimes are
/// in milliseconds.
#[derive(Debug, Clone)]
pub struct TurnAllocation {
    pub server: SocketAddress,
    pub relayed_addr: SocketAddress,
    pub lifetime: u64,
    pub created_at: u64,
    pub username: String,
    pub realm: Option<String>,
}

impl TurnAllocation {
    /// A copy of the allocation.
    pub fn duplicate(&self) -> (a: Self)
        ensures
            a == *self,
    {
        Self {
            server: self.server,
            relayed_addr: self.relayed_addr,
            lifetime: self.lifetime,
            created_at: self.created_at,
            username: self.username.clone(),
            realm: match &self.realm {
                Some(r) => Some(r.clone()),
                None => None,
            },
        }
    }

    /// An allocation granted at `now`.
    pub fn new_at(
        server: SocketAddress,
        relayed_addr: SocketAddress,
        lifetime: u64,
        username: String,
        realm: Option<String>,
        now: u64,
    ) -> (a: Self)
        ensures
            a == (TurnAllocation { server, relayed_addr, lifetime, created_at: now, username, realm }),
    {
        Self { server, relayed_addr, lifetime, created_at: now, username, realm }
    }

    /// An allocation granted at the current clock reading.
    pub fn new(
        server: SocketAddress,
        relayed_addr: SocketAddress,
        lifetime: Duration,
        username: String,
        realm: Option<String>,
    ) -> (a: Self)
        ensures
            a.server == server,
            a.relayed_addr == relayed_addr,
            a.lifetime == duration_millis(lifetime),
            a.username == username,
            a.realm == realm,
    {
        Self::new_at(server, relayed_addr, duration_to_ms(lifetime), username, realm, wall_clock_ms())
    }

    /// Time passed since the allocation was granted.
    pub open spec fn age(&self, now: u64) -> int {
        if now >= self.created_at {
            now - self.created_at
        } else {
            0
        }
    }

    /// An allocation is expired once its lifetime has passed.
    pub open spec fn expired_at(&self, now: u64) -> bool {
        self.age(now) >= self.lifetime
    }

    /// Whether the allocation is expired at `now`.
    pub fn is_expired_at(&self, now: u64) -> (b: bool)
        ensures
            b == self.expired_at(now),
    {
        now.saturating_sub(self.created_at) >= self.lifetime
    }

    /// Whether the allocation is expired at the current clock reading.
    pub fn is_expired(&self) -> (b: bool)
        ensures
            exists|now: u64| b == #[trigger] self.expired_at(now),
    {
        let now = wall_clock_ms();
        let b = self.is_expired_at(now);
        assert(b == self.expired_at(now));
        b
    }

    /// Milliseconds left at `now` before the allocation expires.
    pub open spec fn until_expiry(&self, now: u64) -> u64 {
        if self.expired_at(now) {
            0
        } else {
            (self.lifetime - self.age(now)) as u64
        }
    }

    /// Milliseconds left at `now` before the allocation expires.
    pub fn time_until_expiry_at(&self, now: u64) -> (ms: u64)
        ensures
            ms == self.until_expiry(now),
    {
        self.lifetime.saturating_sub(now.saturating_sub(self.created_at))
    }

    /// Time left at the current clock reading before the allocation expires.
    pub fn time_until_expiry(&self) -> (t: Duration)
        ensures
            exists|now: u64| duration_millis(t) == #[trigger] self.until_expiry(now),
    {
        let now = wall_clock_ms();
        let t = duration_from_ms(self.time_until_expiry_at(now));
        assert(duration_millis(t) == self.until_expiry(now));
        t
    }

    /// An allocation needs a refresh once less than the margin of a minute
    /// is left of its lifetime.
    pub open spec fn refresh_due_at(&self, now: u64) -> bool {
        self.age(now) + TURN_REFRESH_MARGIN_SECONDS * 1000 >= self.lifetime
    }

    /// Whether the allocation is due for a refresh at `now`.
    pub fn needs_refresh_at(&self, now: u64) -> (b: bool)
        ensures
            b == self.refresh_due_at(now),
    {
        let elapsed = now.saturating_sub(self.created_at);
        let margin: u64 = 60_000;
        match elapsed.checked_add(margin) {
            Some(sum) => sum >= self.lifetime,
            None => true,
        }
    }

    /// Whether the allocation is due for a refresh at the current clock reading.
    pub fn needs_refresh(&self) -> (b: bool)
        ensures
            exists|now: u64| b == #[trigger] self.refresh_due_at(now),
    {
        let now = wall_clock_ms();
        let b = self.needs_refresh_at(now);
        assert(b == self.refresh_due_at(now));
        b
    }
}

/// Leave to exchange traffic with one peer through a relay.
#[derive(Debug, Clone)]
pub struct TurnPermission {
    pub peer_addr: SocketAddress,
    pub created_at: u64,
    pub lifetime: u64,
}

impl TurnPermission {
    /// A permission granted at `now`, good for five minutes.
    pub fn new_at(peer_addr: SocketAddress, now: u64) -> (p: Self)
        ensures
            p == (TurnPermission { peer_addr, created_at: now, lifetime: TURN_PERMISSION_LIFETIME_MS }),
    {
        Self { peer_addr, created_at: now, lifetime: TURN_PERMISSION_LIFETIME_MS }
    }

    /// A permission granted at the current clock reading, good for five minutes.
    pub fn new(peer_addr: SocketAddress) -> (p: Self)
        ensures
            p.peer_addr == peer_addr,
            p.lifetime == TURN_PERMISSION_LIFETIME_MS,
    {
        Self::new_at(peer_addr, wall_clock_ms())
    }

    /// A permission is expired once its lifetime has passed.
    pub open spec fn expired_at(&self, now: u64) -> bool {
        now >= self.created_at && now - self.created_at >= self.lifetime
    }

    /// Whether the permission is expired at `now`.
    pub fn is_expired_at(&self, now: u64) -> (b: bool)
        ensures
            b == self.expired_at(now),
    {
        now >= self.created_at && now - self.created_at >= self.lifetime
    }

    /// Whether the permission is expired at the current clock reading.
    pub fn is_expired(&self) -> (b: bool)
        ensures
            exists|now: u64| b == #[trigger] self.expired_at(now),
    {
        let now = wall_clock_ms();
        let b = self.is_expired_at(now);
        assert(b == self.expired_at(now));
        b
    }
}

/// What a relay client is configured with. The lifetime is in milliseconds.
#[derive(Debug, Clone)]
pub struct TurnConfig {
    pub servers: Vec<TurnServer>,
    pub username: Option<String>,
    pub password: Option<String>,
    pub lifetime: u64,
}

impl Default for TurnConfig {
    fn default() -> (c: Self)
        ensures
            c.servers@.len() == 0,
            c.username is None,
            c.password is None,
            c.lifetime == TURN_LIFETIME_SECONDS * 1000,
    {
        Self { servers: Vec::new(), username: None, password: None, lifetime: 600_000 }
    }
}

/// The address that a simulated relay grants for a drawn number: port
/// `50000 + draw % 10000` on `203.0.113.1`.
pub open spec fn spec_relay_address(draw: u16) -> SocketAddress {
    SocketAddress { ip: IpAddress::V4(203, 0, 113, 1), port: (50000 + draw % 10000) as u16 }
}

/// The address that a simulated relay grants for a drawn number.
#[verifier::when_used_as_spec(spec_relay_address)]
pub fn relay_address(draw: u16) -> (a: SocketAddress)
    ensures
        a == spec_relay_address(draw),
{
    SocketAddress::new(IpAddress::V4(203, 0, 113, 1), 50000 + draw % 10000)
}

/// Whether an address is one that a simulated relay may grant.
pub open spec fn is_relay_address(a: SocketAddress) -> bool {
    a.ip == IpAddress::V4(203, 0, 113, 1) && 50000 <= a.port < 60000
}

/// Keeps the allocations and permissions obtained from relay servers.
pub struct TurnClient {
    config: TurnConfig,
    allocations: Vec<TurnAllocation>,
    permissions: Vec<TurnPermission>,
}

impl TurnClient {
    /// The configuration.
    pub closed spec fn spec_config(&self) -> TurnConfig {
        self.config
    }

    /// The allocations held, oldest first.
    pub closed spec fn allocations(&self) -> Seq<TurnAllocation> {
        self.allocations@
    }

    /// The permissions held, oldest first.
    pub closed spec fn permissions(&self) -> Seq<TurnPermission> {
        self.permissions@
    }

    /// A client with `config` that holds no allocation and no permission.
    pub fn new(config: TurnConfig) -> (c: Self)
        ensures
            c.spec_config() == config,
            c.allocations().len() == 0,
            c.permissions().len() == 0,
    {
        Self { config, allocations: Vec::new(), permissions: Vec::new() }
    }

    /// A client for `servers` without credentials, with the default lifetime.
    pub fn with_servers(servers: Vec<TurnServer>) -> (c: Self)
        ensures
            c.spec_config().servers == servers,
            c.spec_config().username is None,
            c.spec_config().password is None,
            c.spec_config().lifetime == TURN_LIFETIME_SECONDS * 1000,
            c.allocations().len() == 0,
            c.permissions().len() == 0,
    {
        let mut config = TurnConfig::default();
        config.servers = servers;
        Self::new(config)
    }

    /// The same client with credentials.
    pub fn with_credentials(self, username: String, password: String) -> (c: Self)
        ensures
            c.spec_config() == (TurnConfig {
                username: Some(username),
                password: Some(password),
                ..self.spec_config()
            }),
            c.allocations() == self.allocations(),
            c.permissions() == self.permissions(),
    {
        let mut c = self;
        c.config.username = Some(username);
        c.config.password = Some(password);
        c
    }

    /// The configuration.
    pub fn config(&self) -> (c: &TurnConfig)
        ensures
            *c == self.spec_config(),
    {
        &self.config
    }

    /// Whether any server is configured.
    pub fn has_servers(&self) -> (b: bool)
        ensures
            b == (self.spec_config().servers@.len() > 0),
    {
        self.config.servers.len() > 0
    }

    /// Whether a user name and a password are configured.
    pub open spec fn spec_has_credentials(&self) -> bool {
        self.spec_config().username is Some && self.spec_config().password is Some
    }

    /// Whether a user name and a password are configured.
    #[verifier::when_used_as_spec(spec_has_credentials)]
    pub fn has_credentials(&self) -> (b: bool)
        ensures
            b == self.spec_has_credentials(),
    {
        self.config.username.is_some() && self.config.password.is_some()
    }

    /// What obtaining an allocation on `server` at `now`, with the relayed
    /// address that `draw` stands for, makes of the client and returns: the
    /// allocation is for the configured user and lifetime and is kept;
    /// without credentials the call fails and changes nothing.
    pub open spec fn allocated(
        &self,
        server: TurnServer,
        draw: u16,
        now: u64,
        after: Self,
        r: Result<TurnAllocation, Error>,
    ) -> bool {
        &&& after.spec_config() == self.spec_config()
        &&& after.permissions() == self.permissions()
        &&& match r {
            Ok(a) => {
                &&& self.spec_has_credentials()
                &&& a == (TurnAllocation {
                    server: server.address,
                    relayed_addr: spec_relay_address(draw),
                    lifetime: self.spec_config().lifetime,
                    created_at: now,
                    username: self.spec_config().username->0,
                    realm: server.realm,
                })
                &&& after.allocations() == self.allocations().push(a)
            },
            Err(e) => {
                &&& !self.spec_has_credentials()
                &&& after.allocations() == self.allocations()
                &&& e.is_network("TURN credentials required"@)
            },
        }
    }

    /// Obtains an allocation on `server` at `now` with the relayed address
    /// that `draw` stands for.
    pub fn create_allocation_with(
        &mut self,
        server: &TurnServer,
        draw: u16,
        now: u64,
    ) -> (r: Result<TurnAllocation, Error>)
        ensures
            old(self).allocated(*server, draw, now, *final(self), r),
    {
        let username = match (&self.config.username, &self.config.password) {
            (Some(u), Some(_)) => u.clone(),
            _ => {
                return Err(Error::Network("TURN credentials required".to_owned()));
            },
        };
        let realm = match &server.realm {
            Some(r) => Some(r.clone()),
            None => None,
        };
        let relayed = relay_address(draw);
        let lifetime = self.config.lifetime;
        self.allocations.push(
            TurnAllocation::new_at(server.address, relayed, lifetime, username.clone(), realm.clone(), now),
        );
        Ok(TurnAllocation::new_at(server.address, relayed, lifetime, username, realm, now))
    }

    /// Obtains an allocation on `server` at the current clock reading, on a
    /// relayed address drawn at random.
    pub fn create_allocation(&mut self, server: &TurnServer) -> (r: Result<TurnAllocation, Error>)
        ensures
            exists|draw: u16, now: u64| #[trigger]
                old(self).allocated(*server, draw, now, *final(self), r),
            r matches Ok(a) ==> is_relay_address(a.relayed_addr),
    {
        let draw = random_u16();
        let now = wall_clock_ms();
        let r = self.create_allocation_with(server, draw, now);
        assert(old(self).allocated(*server, draw, now, *self, r));
        r
    }

    /// The oldest allocation on `server`.
    pub fn get_allocation(&self, server: SocketAddress) -> (a: Option<&TurnAllocation>)
        ensures
            match a {
                Some(x) => exists|i: int|
                    0 <= i < self.allocations().len() && *x == #[trigger] self.allocations()[i]
                        && x.server == server && forall|j: int|
                        0 <= j < i ==> (#[trigger] self.allocations()[j]).server != server,
                None => forall|i: int|
                    0 <= i < self.allocations().len() ==> (#[trigger] self.allocations()[i]).server
                        != server
                    },
    {
        let mut i: usize = 0;
        while i < self.allocations.len()
            invariant
                i <= self.allocations@.len(),
                forall|j: int| 0 <= j < i ==> (#[trigger] self.allocations@[j]).server != server,
            decreases self.allocations@.len() - i,
        {
            if self.allocations[i].server == server {
                assert(self.allocations()[i as int] == self.allocations@[i as int]);
                return Some(&self.allocations[i]);
            }
            i += 1;
        }
        None
    }

    /// Whether `a` is the oldest allocation that is not expired at `now`,
    /// or nothing where all are expired.
    pub open spec fn oldest_active(&self, now: u64, a: Option<&TurnAllocation>) -> bool {
        match a {
            Some(x) => exists|i: int|
                0 <= i < self.allocations().len() && *x == #[trigger] self.allocations()[i]
                    && !x.expired_at(now) && forall|j: int|
                    0 <= j < i ==> (#[trigger] self.allocations()[j]).expired_at(now),
            None => forall|i: int|
                0 <= i < self.allocations().len() ==> (#[trigger] self.allocations()[i]).expired_at(
                    now,
                ),
        }
    }

    /// The oldest allocation that is not expired at `now`.
    pub fn get_active_allocation_at(&self, now: u64) -> (a: Option<&TurnAllocation>)
        ensures
            self.oldest_active(now, a),
    {
        let mut i: usize = 0;
        while i < self.allocations.len()
            invariant
                i <= self.allocations@.len(),
                forall|j: int| 0 <= j < i ==> (#[trigger] self.allocations@[j]).expired_at(now),
            decreases self.allocations@.len() - i,
        {
            if !self.allocations[i].is_expired_at(now) {
                assert(self.allocations()[i as int] == self.allocations@[i as int]);
                return Some(&self.allocations[i]);
            }
            i += 1;
        }
        None
    }

    /// The oldest allocation that is not expired at the current clock reading.
    pub fn get_active_allocation(&self) -> (a: Option<&TurnAllocation>)
        ensures
            exists|now: u64| #[trigger] self.oldest_active(now, a),
    {
        let now = wall_clock_ms();
        let a = self.get_active_allocation_at(now);
        assert(self.oldest_active(now, a));
        a
    }

    /// What renewing the oldest allocation on `server` at `now` makes of
    /// the client: that allocation starts over with the configured
    /// lifetime, and nothing else changes.
    pub open spec fn refreshed(&self, server: SocketAddress, now: u64, after: Self) -> bool {
        &&& after.spec_config() == self.spec_config()
        &&& after.permissions() == self.permissions()
        &&& after.allocations().len() == self.allocations().len()
        &&& forall|i: int|
            0 <= i < self.allocations().len() ==> #[trigger] after.allocations()[i]
                == if self.allocations()[i].server == server && forall|j: int|
                0 <= j < i ==> (#[trigger] self.allocations()[j]).server != server {
                TurnAllocation {
                    lifetime: self.spec_config().lifetime,
                    created_at: now,
                    ..self.allocations()[i]
                }
            } else {
                self.allocations()[i]
            }
    }

    /// Renews the oldest allocation on `server` at `now`: it starts over
    /// with the configured lifetime. Unknown servers change nothing.
    pub fn refresh_allocation_at(
        &mut self,
        server: SocketAddress,
        now: u64,
    ) -> (r: Result<(), Error>)
        ensures
            r is Ok,
            old(self).refreshed(server, now, *final(self)),
    {
        let mut i: usize = 0;
        while i < self.allocations.len()
            invariant
                i <= self.allocations@.len(),
                *self == *old(self),
                forall|j: int| 0 <= j < i ==> (#[trigger] self.allocations@[j]).server != server,
            decreases self.allocations@.len() - i,
        {
            if self.allocations[i].server == server {
                let lifetime = self.config.lifetime;
                let a = &mut self.allocations[i];
                a.lifetime = lifetime;
                a.created_at = now;
                return Ok(());
            }
            i += 1;
        }
        Ok(())
    }

    /// Renews the oldest allocation on `server` at the current clock reading.
    pub fn refresh_allocation(&mut self, server: SocketAddress) -> (r: Result<(), Error>)
        ensures
            r is Ok,
            exists|now: u64| #[trigger] old(self).refreshed(server, now, *final(self)),
    {
        let now = wall_clock_ms();
        let r = self.refresh_allocation_at(server, now);
        assert(old(self).refreshed(server, now, *self));
        r
    }

    /// Records a permission for `peer_addr` granted at the current clock reading.
    pub fn create_permission(&mut self, peer_addr: SocketAddress) -> (r: Result<(), Error>)
        ensures
            r is Ok,
            exists|now: u64| #[trigger] old(self).permitted(peer_addr, now, *final(self)),
    {
        let now = wall_clock_ms();
        let r = self.create_permission_at(peer_addr, now);
        assert(old(self).permitted(peer_addr, now, *self));
        r
    }

    /// What recording a permission for `peer_addr` at `now` makes of the
    /// client: the permission, good for five minutes, joins at the end.
    pub open spec fn permitted(&self, peer_addr: SocketAddress, now: u64, after: Self) -> bool {
        &&& after.spec_config() == self.spec_config()
        &&& after.allocations() == self.allocations()
        &&& after.permissions() == self.permissions().push(
            TurnPermission { peer_addr, created_at: now, lifetime: TURN_PERMISSION_LIFETIME_MS },
        )
    }

    /// Records a permission for `peer_addr` granted at `now`.
    pub fn create_permission_at(
        &mut self,
        peer_addr: SocketAddress,
        now: u64,
    ) -> (r: Result<(), Error>)
        ensures
            r is Ok,
            old(self).permitted(peer_addr, now, *final(self)),
    {
        self.permissions.push(TurnPermission::new_at(peer_addr, now));
        Ok(())
    }

    /// Whether a permission for `peer_addr` is held that is not expired at `now`.
    pub open spec fn permits(&self, peer_addr: SocketAddress, now: u64) -> bool {
        exists|i: int|
            0 <= i < self.permissions().len() && (#[trigger] self.permissions()[i]).peer_addr
                == peer_addr && !self.permissions()[i].expired_at(now)
    }

    /// Whether a permission for `peer_addr` is held that is not expired at `now`.
    pub fn has_permission_at(&self, peer_addr: SocketAddress, now: u64) -> (b: bool)
        ensures
            b == self.permits(peer_addr, now),
    {
        let mut i: usize = 0;
        while i < self.permissions.len()
            invariant
                i <= self.permissions@.len(),
                forall|j: int|
                    0 <= j < i ==> !((#[trigger] self.permissions@[j]).peer_addr == peer_addr
                        && !self.permissions@[j].expired_at(now)),
            decreases self.permissions@.len() - i,
        {
            if self.permissions[i].peer_addr == peer_addr && !self.permissions[i].is_expired_at(now) {
                assert(self.permissions()[i as int] == self.permissions@[i as int]);
                return true;
            }
            i += 1;
        }
        false
    }

    /// Whether a permission for `peer_addr` is held that is not expired at
    /// the current clock reading.
    pub fn has_permission(&self, peer_addr: SocketAddress) -> (b: bool)
        ensures
            exists|now: u64| b == #[trigger] self.permits(peer_addr, now),
    {
        let now = wall_clock_ms();
        let b = self.has_permission_at(peer_addr, now);
        assert(b == self.permits(peer_addr, now));
        b
    }

    /// What letting go of everything that is expired at `now` makes of the
    /// client: the allocations and permissions that are not expired stay,
    /// in their order.
    pub open spec fn cleaned(&self, now: u64, after: Self) -> bool {
        &&& after.spec_config() == self.spec_config()
        &&& after.allocations() == self.allocations().filter(|a: TurnAllocation| !a.expired_at(now))
        &&& after.permissions() == self.permissions().filter(|p: TurnPermission| !p.expired_at(now))
    }

    /// Lets go of the allocations and permissions that are expired at `now`.
    pub fn cleanup_expired_at(&mut self, now: u64)
        ensures
            old(self).cleaned(now, *final(self)),
    {
        let ghost live_allocation = |a: TurnAllocation| !a.expired_at(now);
        let ghost live_permission = |p: TurnPermission| !p.expired_at(now);
        let mut allocations: Vec<TurnAllocation> = Vec::new();
        let mut i: usize = 0;
        proof {
            reveal(Seq::filter);
            assert(self.allocations@.subrange(0, 0) =~= Seq::<TurnAllocation>::empty());
            assert(self.permissions@.subrange(0, 0) =~= Seq::<TurnPermission>::empty());
        }
        while i < self.allocations.len()
            invariant
                i <= self.allocations@.len(),
                *self == *old(self),
                live_allocation == |a: TurnAllocation| !a.expired_at(now),
                allocations@ == self.allocations@.subrange(0, i as int).filter(live_allocation),
            decreases self.allocations@.len() - i,
        {
            proof {
                reveal(Seq::filter);
                assert(self.allocations@.subrange(0, i + 1).drop_last() =~= self.allocations@.subrange(
                    0,
                    i as int,
                ));
            }
            if !self.allocations[i].is_expired_at(now) {
                allocations.push(self.allocations[i].duplicate());
            }
            i += 1;
        }
        let mut permissions: Vec<TurnPermission> = Vec::new();
        let mut k: usize = 0;
        while k < self.permissions.len()
            invariant
                k <= self.permissions@.len(),
                *self == *old(self),
                live_permission == |p: TurnPermission| !p.expired_at(now),
                permissions@ == self.permissions@.subrange(0, k as int).filter(live_permission),
            decreases self.permissions@.len() - k,
        {
            proof {
                reveal(Seq::filter);
                assert(self.permissions@.subrange(0, k + 1).drop_last() =~= self.permissions@.subrange(
                    0,
                    k as int,
                ));
            }
            if !self.permissions[k].is_expired_at(now) {
                permissions.push(
                    TurnPermission {
                        peer_addr: self.permissions[k].peer_addr,
                        created_at: self.permissions[k].created_at,
                        lifetime: self.permissions[k].lifetime,
                    },
                );
            }
            k += 1;
        }
        assert(self.allocations@.subrange(0, i as int) =~= self.allocations@);
        assert(self.permissions@.subrange(0, k as int) =~= self.permissions@);
        self.allocations = allocations;
        self.permissions = permissions;
    }

    /// Lets go of the allocations and permissions that are expired at the
    /// current clock reading.
    pub fn cleanup_expired(&mut self)
        ensures
            exists|now: u64| #[trigger] old(self).cleaned(now, *final(self)),
    {
        let now = wall_clock_ms();
        self.cleanup_expired_at(now);
        assert(old(self).cleaned(now, *self));
    }

    /// Number of allocations held.
    pub fn allocation_count(&self) -> (n: usize)
        ensures
            n == self.allocations().len(),
    {
        self.allocations.len()
    }

    /// Number of permissions held.
    pub fn permission_count(&self) -> (n: usize)
        ensures
            n == self.permissions().len(),
    {
        self.permissions.len()
    }
}

/// A relayed address with the priority it has as a candidate.
#[derive(Debug, Clone)]
pub struct TurnCandidate {
    pub relayed_addr: SocketAddress,
    pub server: SocketAddress,
    pub priority: u32,
}

impl TurnCandidate {
    /// The relayed candidate of component 1 with the given local preference.
    pub fn new(
        relayed_addr: SocketAddress,
        server: SocketAddress,
        local_preference: u16,
    ) -> (c: Self)
        ensures
            c.relayed_addr == relayed_addr,
            c.server == server,
            c.priority == crate::ice::priority_value(CandidateType::Relayed, local_preference, 1),
    {
        let priority = Candidate::compute_priority(CandidateType::Relayed, local_preference, 1);
        Self { relayed_addr, server, priority }
    }

    /// The candidate as the agent holds one.
    pub fn to_ice_candidate(&self) -> (c: Candidate)
        ensures
            c@ == crate::ice::relayed_view(self.relayed_addr, self.server, 1),
    {
        Candidate::new_relayed(self.relayed_addr, self.server, 1)
    }
}

} // verus!
