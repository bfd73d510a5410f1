//! Port mappings on a gateway through UPnP or NAT-PMP.

use crate::addr::IpAddress;
use crate::error::Error;
use vstd::prelude::*;

verus! {

/// Time to search for gateways, in milliseconds.
pub const UPNP_DEFAULT_TIMEOUT_MS: u64 = 5_000;

/// Lease of a port mapping, in milliseconds.
pub const UPNP_DEFAULT_LEASE_MS: u64 = 3_600_000;

/// Port on which a gateway answers NAT-PMP.
pub const NAT_PMP_DEFAULT_PORT: u16 = 5351;

/// The transport protocol of a port mapping.
#[derive(Debug, Clone, Copy, PartialEq, Eq, Structural)]
pub enum Protocol {
    Tcp,
    Udp,
}

impl Protocol {
    /// The name of the protocol.
    pub open spec fn name(self) -> Seq<char> {
        match self {
            Protocol::Tcp => "TCP"@,
            Protocol::Udp => "UDP"@,
        }
    }

    /// The name of the protocol.
    pub fn to_string(&self) -> (s: String)
        ensures
            s@ == self.name(),
    {
        match self {
            Protocol::Tcp => "TCP".to_owned(),
            Protocol::Udp => "UDP".to_owned(),
        }
    }
}

/// An external port forwarded to an internal address. The lease is in
/// milliseconds.
#[derive(Debug, Clone)]
pub struct PortMapping {
    pub external_port: u16,
    pub internal_port: u16,
    pub internal_ip: IpAddress,
    pub protocol: Protocol,
    pub lease_duration: u64,
    pub description: String,
}

impl PortMapping {
    /// A mapping with the default lease and description.
    pub fn new(
        external_port: u16,
        internal_port: u16,
        internal_ip: IpAddress,
        protocol: Protocol,
    ) -> (m: Self)
        ensures
            m.external_port == external_port,
            m.internal_port == internal_port,
            m.internal_ip == internal_ip,
            m.protocol == protocol,
            m.lease_duration == UPNP_DEFAULT_LEASE_MS,
            m.description@ == "Agora P2P Voice"@,
    {
        Self {
            external_port,
            internal_port,
            internal_ip,
            protocol,
            lease_duration: UPNP_DEFAULT_LEASE_MS,
            description: "Agora P2P Voice".to_owned(),
        }
    }

    /// The same mapping described by `desc`.
    pub fn with_description(self, desc: &str) -> (m: Self)
        ensures
            m.description@ == desc@,
            m.external_port == self.external_port,
            m.internal_port == self.internal_port,
            m.internal_ip == self.internal_ip,
            m.protocol == self.protocol,
            m.lease_duration == self.lease_duration,
    {
        let mut m = self;
        m.description = desc.to_owned();
        m
    }

    /// The same mapping with a lease of `duration` milliseconds.
    pub fn with_lease_duration(self, duration: u64) -> (m: Self)
        ensures
            m == (PortMapping { lease_duration: duration, ..self }),
    {
        let mut m = self;
        m.lease_duration = duration;
        m
    }

    /// A copy of the mapping.
    pub fn duplicate(&self) -> (m: Self)
        ensures
            m == *self,
    {
        Self {
            external_port: self.external_port,
            internal_port: self.internal_port,
            internal_ip: self.internal_ip,
            protocol: self.protocol,
            lease_duration: self.lease_duration,
            description: self.description.clone(),
        }
    }

    /// Whether the mapping is the one of `external_port` and `protocol`.
    pub open spec fn is_for(&self, external_port: u16, protocol: Protocol) -> bool {
        self.external_port == external_port && self.protocol == protocol
    }
}

/// A gateway that speaks UPnP.
#[derive(Debug, Clone)]
pub struct UpnpDevice {
    pub location: String,
    pub friendly_name: String,
    pub manufacturer: String,
    pub model_name: String,
    pub control_url: String,
    pub service_type: String,
}

impl UpnpDevice {
    /// The gateway described at `location`, of which nothing else is known yet.
    pub fn new(location: String) -> (d: Self)
        ensures
            d.location == location,
            d.friendly_name@ == Seq::<char>::empty(),
            d.manufacturer@ == Seq::<char>::empty(),
            d.model_name@ == Seq::<char>::empty(),
            d.control_url@ == Seq::<char>::empty(),
            d.service_type@ == "urn:schemas-upnp-org:service:WANIPConnection:1"@,
    {
        Self {
            location,
            friendly_name: String::new(),
            manufacturer: String::new(),
            model_name: String::new(),
            control_url: String::new(),
            service_type: "urn:schemas-upnp-org:service:WANIPConnection:1".to_owned(),
        }
    }

    /// The same gateway called `name`.
    pub fn with_friendly_name(self, name: String) -> (d: Self)
        ensures
            d == (UpnpDevice { friendly_name: name, ..self }),
    {
        let mut d = self;
        d.friendly_name = name;
        d
    }

    /// The same gateway, controlled at `url`.
    pub fn with_control_url(self, url: String) -> (d: Self)
        ensures
            d == (UpnpDevice { control_url: url, ..self }),
    {
        let mut d = self;
        d.control_url = url;
        d
    }

    /// A copy of the device.
    pub fn duplicate(&self) -> (d: Self)
        ensures
            d == *self,
    {
        Self {
            location: self.location.clone(),
            friendly_name: self.friendly_name.clone(),
            manufacturer: self.manufacturer.clone(),
            model_name: self.model_name.clone(),
            control_url: self.control_url.clone(),
            service_type: self.service_type.clone(),
        }
    }
}

/// The times are in milliseconds.
#[derive(Debug, Clone)]
pub struct UpnpConfig {
    pub search_timeout: u64,
    pub lease_duration: u64,
    pub description: String,
}

impl UpnpConfig {
    /// Whether this is the configuration that is taken where none is given.
    pub open spec fn is_default(&self) -> bool {
        &&& self.search_timeout == UPNP_DEFAULT_TIMEOUT_MS
        &&& self.lease_duration == UPNP_DEFAULT_LEASE_MS
        &&& self.description@ == "Agora P2P Voice"@
    }
}

impl Default for UpnpConfig {
    fn default() -> (c: Self)
        ensures
            c.is_default(),
    {
        Self {
            search_timeout: UPNP_DEFAULT_TIMEOUT_MS,
            lease_duration: UPNP_DEFAULT_LEASE_MS,
            description: "Agora P2P Voice".to_owned(),
        }
    }
}

/// The simulated gateway that a search finds.
pub open spec fn is_simulated_device(d: UpnpDevice) -> bool {
    &&& d.location@ == "http://192.168.1.1:49152/rootDesc.xml"@
    &&& d.friendly_name@ == "Simulated Router"@
    &&& d.control_url@ == "/upnp/control/WANIPConn1"@
    &&& d.manufacturer@ == Seq::<char>::empty()
    &&& d.model_name@ == Seq::<char>::empty()
    &&& d.service_type@ == "urn:schemas-upnp-org:service:WANIPConnection:1"@
}

/// The external address that a simulated gateway reports.
pub open spec fn simulated_external_ip() -> IpAddress {
    IpAddress::V4(203, 0, 113, 50)
}

/// Keeps the gateways found by a search and the external address they report.
pub struct UpnpClient {
    config: UpnpConfig,
    devices: Vec<UpnpDevice>,
    external_ip: Option<IpAddress>,
}

impl UpnpClient {
    /// The only external address that a client ever takes down is the one
    /// that the simulated gateway reports.
    #[verifier::type_invariant]
    spec fn knows_no_other_address(self) -> bool {
        self.external_ip is None || self.external_ip == Some(simulated_external_ip())
    }

    /// The configuration.
    pub closed spec fn spec_config(&self) -> UpnpConfig {
        self.config
    }

    /// The gateways found, in the order in which they were found.
    pub closed spec fn devices(&self) -> Seq<UpnpDevice> {
        self.devices@
    }

    /// The external address, once it is known.
    pub closed spec fn external(&self) -> Option<IpAddress> {
        self.external_ip
    }

    /// A client with the default configuration that has found no gateway yet.
    pub fn new() -> (c: Self)
        ensures
            c.devices().len() == 0,
            c.external() is None,
            c.spec_config().is_default(),
    {
        Self { config: UpnpConfig::default(), devices: Vec::new(), external_ip: None }
    }

    /// A client with `config` that has found no gateway yet.
    pub fn with_config(config: UpnpConfig) -> (c: Self)
        ensures
            c.devices().len() == 0,
            c.external() is None,
            c.spec_config() == config,
    {
        Self { config, devices: Vec::new(), external_ip: None }
    }

    /// Whether a gateway was found.
    pub fn has_devices(&self) -> (b: bool)
        ensures
            b == (self.devices().len() > 0),
    {
        self.devices.len() > 0
    }

    /// Number of gateways found.
    pub fn device_count(&self) -> (n: usize)
        ensures
            n == self.devices().len(),
    {
        self.devices.len()
    }

    /// The external address, once it is known.
    pub fn external_ip(&self) -> (ip: Option<IpAddress>)
        ensures
            ip == self.external(),
    {
        self.external_ip
    }

    /// What a search makes of the client: the simulated gateway is found
    /// once more and its external address is taken down.
    pub open spec fn searched(&self, after: Self) -> bool {
        &&& after.spec_config() == self.spec_config()
        &&& after.devices().len() == self.devices().len() + 1
        &&& after.devices().subrange(0, self.devices().len() as int) == self.devices()
        &&& is_simulated_device(after.devices().last())
        &&& after.external() == Some(simulated_external_ip())
    }

    /// What making sure of a gateway makes of the client: nothing where one
    /// was found before, else what a search makes of it.
    pub open spec fn made_sure(&self, after: Self) -> bool {
        if self.devices().len() > 0 {
            &&& after.spec_config() == self.spec_config()
            &&& after.devices() == self.devices()
            &&& after.external() == self.external()
        } else {
            self.searched(after)
        }
    }

    /// Searches for gateways. Gives all gateways found so far.
    pub fn discover(&mut self) -> (r: Result<Vec<UpnpDevice>, Error>)
        ensures
            old(self).searched(*final(self)),
            r matches Ok(found) && found@ == final(self).devices(),
    {
        let device = UpnpDevice::new("http://192.168.1.1:49152/rootDesc.xml".to_owned())
            .with_friendly_name("Simulated Router".to_owned())
            .with_control_url("/upnp/control/WANIPConn1".to_owned());
        proof {
            use_type_invariant(&*self);
        }
        let mut devices: Vec<UpnpDevice> = Vec::new();
        std::mem::swap(&mut devices, &mut self.devices);
        devices.push(device);
        self.devices = devices;
        self.external_ip = Some(IpAddress::V4(203, 0, 113, 50));
        assert(self.devices@.subrange(0, old(self).devices().len() as int) =~= old(self).devices());
        let mut found: Vec<UpnpDevice> = Vec::new();
        let mut i: usize = 0;
        while i < self.devices.len()
            invariant
                i <= self.devices@.len(),
                found@ == self.devices@.subrange(0, i as int),
            decreases self.devices@.len() - i,
        {
            found.push(self.devices[i].duplicate());
            i += 1;
            assert(found@ =~= self.devices@.subrange(0, i as int));
        }
        assert(found@ =~= self.devices@);
        Ok(found)
    }

    /// The lease that a mapping gets: the shorter of the one it asks for and
    /// the one that the client is configured with.
    pub fn granted_lease(&self, mapping: &PortMapping) -> (lease: u64)
        ensures
            lease == if mapping.lease_duration <= self.spec_config().lease_duration {
                mapping.lease_duration
            } else {
                self.spec_config().lease_duration
            },
    {
        if mapping.lease_duration <= self.config.lease_duration {
            mapping.lease_duration
        } else {
            self.config.lease_duration
        }
    }

    /// Asks the first gateway to add a mapping, after a search if none was
    /// found yet.
    pub fn add_port_mapping(&mut self, mapping: &PortMapping) -> (r: Result<(), Error>)
        ensures
            r is Ok,
            old(self).made_sure(*final(self)),
    {
        if self.devices.len() == 0 {
            let _ = self.discover();
        }
        Ok(())
    }

    /// Asks the first gateway to remove a mapping, after a search if none
    /// was found yet.
    pub fn remove_port_mapping(
        &mut self,
        external_port: u16,
        protocol: Protocol,
    ) -> (r: Result<(), Error>)
        ensures
            r is Ok,
            old(self).made_sure(*final(self)),
    {
        if self.devices.len() == 0 {
            let _ = self.discover();
        }
        Ok(())
    }

    /// The external address, after a search if it is not known yet.
    pub fn get_external_ip(&mut self) -> (r: Result<IpAddress, Error>)
        ensures
            r == Ok::<IpAddress, Error>(simulated_external_ip()),
            final(self).external() == Some(simulated_external_ip()),
            match old(self).external() {
                Some(known) => {
                    &&& final(self).spec_config() == old(self).spec_config()
                    &&& final(self).devices() == old(self).devices()
                },
                None => old(self).searched(*final(self)),
            },
    {
        proof {
            use_type_invariant(&*self);
        }
        match self.external_ip {
            Some(ip) => Ok(ip),
            None => {
                let _ = self.discover();
                Ok(IpAddress::V4(203, 0, 113, 50))
            },
        }
    }

    /// The mappings that the gateway knows of: none.
    pub fn get_mappings(&self) -> (r: Result<Vec<PortMapping>, Error>)
        ensures
            r matches Ok(m) && m@.len() == 0,
    {
        Ok(Vec::new())
    }
}

impl Default for UpnpClient {
    fn default() -> (c: Self)
        ensures
            c.devices().len() == 0,
            c.external() is None,
            c.spec_config().is_default(),
    {
        Self::new()
    }
}

/// The timeout is in milliseconds.
#[derive(Debug, Clone, Copy, PartialEq, Eq, Structural)]
pub struct NatPmpConfig {
    pub gateway: Option<IpAddress>,
    pub timeout: u64,
    pub retry_count: u32,
}

impl Default for NatPmpConfig {
    fn default() -> (c: Self)
        ensures
            c == (NatPmpConfig { gateway: None, timeout: 5_000, retry_count: 3 }),
    {
        Self { gateway: None, timeout: 5_000, retry_count: 3 }
    }
}

/// The gateway that is taken where none is configured.
pub open spec fn default_gateway() -> IpAddress {
    IpAddress::V4(192, 168, 1, 1)
}

/// Keeps the gateway and the external address that it reports.
pub struct NatPmpClient {
    config: NatPmpConfig,
    gateway: Option<IpAddress>,
    external_ip: Option<IpAddress>,
}

impl NatPmpClient {
    /// The configuration.
    pub closed spec fn spec_config(&self) -> NatPmpConfig {
        self.config
    }

    /// The gateway, once it is known.
    pub closed spec fn spec_gateway(&self) -> Option<IpAddress> {
        self.gateway
    }

    /// The external address, once it is known.
    pub closed spec fn external(&self) -> Option<IpAddress> {
        self.external_ip
    }

    /// A client with the default configuration that knows no gateway yet.
    pub fn new() -> (c: Self)
        ensures
            c.spec_config() == (NatPmpConfig { gateway: None, timeout: 5_000, retry_count: 3 }),
            c.spec_gateway() is None,
            c.external() is None,
    {
        Self { config: NatPmpConfig::default(), gateway: None, external_ip: None }
    }

    /// The same client for the gateway at `gateway`.
    pub fn with_gateway(self, gateway: IpAddress) -> (c: Self)
        ensures
            c.spec_config() == (NatPmpConfig { gateway: Some(gateway), ..self.spec_config() }),
            c.spec_gateway() == Some(gateway),
            c.external() == self.external(),
    {
        let mut c = self;
        c.gateway = Some(gateway);
        c.config.gateway = Some(gateway);
        c
    }

    /// The gateway, once it is known.
    pub fn gateway(&self) -> (g: Option<IpAddress>)
        ensures
            g == self.spec_gateway(),
    {
        self.gateway
    }

    /// The external address, once it is known.
    pub fn external_ip(&self) -> (ip: Option<IpAddress>)
        ensures
            ip == self.external(),
    {
        self.external_ip
    }

    /// The gateway that a search settles on: the configured one, or
    /// `192.168.1.1`.
    pub open spec fn found_gateway(&self) -> IpAddress {
        match self.spec_config().gateway {
            Some(configured) => configured,
            None => default_gateway(),
        }
    }

    /// The gateway that a request goes to: the one that is known, or else
    /// the one that a search settles on.
    pub open spec fn settled_gateway(&self) -> IpAddress {
        match self.spec_gateway() {
            Some(known) => known,
            None => self.found_gateway(),
        }
    }

    /// Settles on the gateway: the configured one, or `192.168.1.1`.
    pub fn discover_gateway(&mut self) -> (r: Result<IpAddress, Error>)
        ensures
            final(self).spec_config() == old(self).spec_config(),
            final(self).external() == old(self).external(),
            r matches Ok(g) && g == old(self).found_gateway(),
            final(self).spec_gateway() == Some(old(self).found_gateway()),
    {
        let gateway = match self.config.gateway {
            Some(g) => g,
            None => IpAddress::V4(192, 168, 1, 1),
        };
        self.gateway = Some(gateway);
        Ok(gateway)
    }

    /// The external address that the gateway reports, after settling on a
    /// gateway if there is none yet.
    pub fn get_external_address(&mut self) -> (r: Result<IpAddress, Error>)
        ensures
            final(self).spec_config() == old(self).spec_config(),
            r matches Ok(ip) && ip == simulated_external_ip() && final(self).external() == Some(ip),
            final(self).spec_gateway() == Some(old(self).settled_gateway()),
    {
        if self.gateway.is_none() {
            let _ = self.discover_gateway();
        }
        let external = IpAddress::V4(203, 0, 113, 50);
        self.external_ip = Some(external);
        Ok(external)
    }

    /// Asks the gateway for a mapping, after settling on a gateway if there
    /// is none yet. The lifetime is in milliseconds.
    pub fn map_port(
        &mut self,
        internal_port: u16,
        external_port: u16,
        protocol: Protocol,
        lifetime: u64,
    ) -> (r: Result<(), Error>)
        ensures
            r is Ok,
            final(self).spec_config() == old(self).spec_config(),
            final(self).external() == old(self).external(),
            final(self).spec_gateway() == Some(old(self).settled_gateway()),
    {
        if self.gateway.is_none() {
            let _ = self.discover_gateway();
        }
        Ok(())
    }

    /// Asks the gateway to drop a mapping, after settling on a gateway if
    /// there is none yet.
    pub fn unmap_port(&mut self, external_port: u16, protocol: Protocol) -> (r: Result<(), Error>)
        ensures
            r is Ok,
            final(self).spec_config() == old(self).spec_config(),
            final(self).external() == old(self).external(),
            final(self).spec_gateway() == Some(old(self).settled_gateway()),
    {
        if self.gateway.is_none() {
            let _ = self.discover_gateway();
        }
        Ok(())
    }
}

impl Default for NatPmpClient {
    fn default() -> (c: Self)
        ensures
            c.spec_config() == (NatPmpConfig { gateway: None, timeout: 5_000, retry_count: 3 }),
            c.spec_gateway() is None,
            c.external() is None,
    {
        Self::new()
    }
}

/// Reason of the error returned where neither method of port forwarding is set up.
pub open spec fn reason_no_method() -> Seq<char> {
    "No port forwarding method available"@
}

/// The mappings that stay when the one of `external_port` and `protocol` goes.
pub open spec fn without_mapping(
    mappings: Seq<PortMapping>,
    external_port: u16,
    protocol: Protocol,
) -> Seq<
    PortMapping,
> {
    mappings.filter(|m: PortMapping| !m.is_for(external_port, protocol))
}

/// Forwards ports through UPnP where a gateway answers to it, through
/// NAT-PMP otherwise.
pub struct PortForwarder {
    upnp: Option<UpnpClient>,
    nat_pmp: Option<NatPmpClient>,
    mappings: Vec<PortMapping>,
}

impl PortForwarder {
    /// Whether port mappings go through UPnP.
    pub closed spec fn upnp_ready(&self) -> bool {
        self.upnp is Some
    }

    /// Whether port mappings go through NAT-PMP.
    pub closed spec fn nat_pmp_ready(&self) -> bool {
        self.nat_pmp is Some
    }

    /// The mappings added and not removed, oldest first.
    pub closed spec fn spec_mappings(&self) -> Seq<PortMapping> {
        self.mappings@
    }

    /// A forwarder that has no way to map ports yet and holds no mapping.
    pub fn new() -> (f: Self)
        ensures
            !f.upnp_ready(),
            !f.nat_pmp_ready(),
            f.spec_mappings().len() == 0,
    {
        Self { upnp: None, nat_pmp: None, mappings: Vec::new() }
    }

    /// Looks for a gateway: UPnP first, which the simulated gateway answers to.
    pub fn setup(&mut self) -> (r: Result<(), Error>)
        ensures
            r is Ok,
            final(self).upnp_ready(),
            final(self).nat_pmp_ready() == old(self).nat_pmp_ready(),
            final(self).spec_mappings() == old(self).spec_mappings(),
    {
        let mut upnp = UpnpClient::new();
        let _ = upnp.discover();
        self.upnp = Some(upnp);
        Ok(())
    }

    /// Forwards `external_port` to `internal_port` on `internal_ip`, which
    /// is the address of this host, and takes the mapping down. Without a
    /// method of port forwarding the call fails and changes nothing.
    pub fn add_mapping(
        &mut self,
        internal_ip: IpAddress,
        internal_port: u16,
        external_port: u16,
        protocol: Protocol,
    ) -> (r: Result<PortMapping, Error>)
        ensures
            final(self).upnp_ready() == old(self).upnp_ready(),
            final(self).nat_pmp_ready() == old(self).nat_pmp_ready(),
            match r {
                Ok(m) => {
                    &&& old(self).upnp_ready() || old(self).nat_pmp_ready()
                    &&& m.external_port == external_port
                    &&& m.internal_port == internal_port
                    &&& m.internal_ip == internal_ip
                    &&& m.protocol == protocol
                    &&& m.lease_duration == UPNP_DEFAULT_LEASE_MS
                    &&& m.description@ == "Agora P2P Voice"@
                    &&& final(self).spec_mappings() == old(self).spec_mappings().push(m)
                },
                Err(e) => {
                    &&& !old(self).upnp_ready() && !old(self).nat_pmp_ready()
                    &&& final(self).spec_mappings() == old(self).spec_mappings()
                    &&& e.is_network(reason_no_method())
                },
            },
    {
        match &mut self.upnp {
            Some(upnp) => {
                let mapping = PortMapping::new(external_port, internal_port, internal_ip, protocol);
                let _ = upnp.add_port_mapping(&mapping);
                self.mappings.push(mapping.duplicate());
                return Ok(mapping);
            },
            None => {},
        }
        match &mut self.nat_pmp {
            Some(nat_pmp) => {
                let _ = nat_pmp.map_port(internal_port, external_port, protocol, UPNP_DEFAULT_LEASE_MS);
                let mapping = PortMapping::new(external_port, internal_port, internal_ip, protocol);
                self.mappings.push(mapping.duplicate());
                Ok(mapping)
            },
            None => Err(Error::network("No port forwarding method available")),
        }
    }

    /// Stops forwarding `external_port` and forgets every mapping of it.
    /// Without a method of port forwarding the call fails and changes nothing.
    pub fn remove_mapping(
        &mut self,
        external_port: u16,
        protocol: Protocol,
    ) -> (r: Result<(), Error>)
        ensures
            final(self).upnp_ready() == old(self).upnp_ready(),
            final(self).nat_pmp_ready() == old(self).nat_pmp_ready(),
            match r {
                Ok(()) => {
                    &&& old(self).upnp_ready() || old(self).nat_pmp_ready()
                    &&& final(self).spec_mappings() == without_mapping(
                        old(self).spec_mappings(),
                        external_port,
                        protocol,
                    )
                },
                Err(e) => {
                    &&& !old(self).upnp_ready() && !old(self).nat_pmp_ready()
                    &&& final(self).spec_mappings() == old(self).spec_mappings()
                    &&& e.is_network(reason_no_method())
                },
            },
    {
        let has_method = match &mut self.upnp {
            Some(upnp) => {
                let _ = upnp.remove_port_mapping(external_port, protocol);
                true
            },
            None => match &mut self.nat_pmp {
                Some(nat_pmp) => {
                    let _ = nat_pmp.unmap_port(external_port, protocol);
                    true
                },
                None => false,
            },
        };
        if !has_method {
            return Err(Error::network("No port forwarding method available"));
        }
        let ghost all = self.mappings@;
        let ghost keep = |m: PortMapping| !m.is_for(external_port, protocol);
        let mut kept: Vec<PortMapping> = Vec::new();
        let mut i: usize = 0;
        assert(all.subrange(0, 0) =~= Seq::<PortMapping>::empty());
        proof {
            reveal(Seq::filter);
        }
        while i < self.mappings.len()
            invariant
                i <= self.mappings@.len(),
                all == self.mappings@,
                keep == |m: PortMapping| !m.is_for(external_port, protocol),
                kept@ == all.subrange(0, i as int).filter(keep),
            decreases self.mappings@.len() - i,
        {
            let m = &self.mappings[i];
            proof {
                reveal(Seq::filter);
                assert(all.subrange(0, i + 1).drop_last() =~= all.subrange(0, i as int));
                assert(all.subrange(0, i + 1).last() == all[i as int]);
            }
            if !(m.external_port == external_port && m.protocol == protocol) {
                kept.push(m.duplicate());
            }
            i += 1;
        }
        assert(all.subrange(0, i as int) =~= all);
        self.mappings = kept;
        Ok(())
    }

    /// The external address as the method of port forwarding reports it.
    pub fn get_external_ip(&mut self) -> (r: Result<IpAddress, Error>)
        ensures
            final(self).upnp_ready() == old(self).upnp_ready(),
            final(self).nat_pmp_ready() == old(self).nat_pmp_ready(),
            final(self).spec_mappings() == old(self).spec_mappings(),
            match r {
                Ok(ip) => (old(self).upnp_ready() || old(self).nat_pmp_ready()) && ip
                    == simulated_external_ip(),
                Err(e) => !old(self).upnp_ready() && !old(self).nat_pmp_ready() && e.is_network(
                    reason_no_method(),
                ),
            },
    {
        match &mut self.upnp {
            Some(upnp) => {
                return upnp.get_external_ip();
            },
            None => {},
        }
        match &mut self.nat_pmp {
            Some(nat_pmp) => nat_pmp.get_external_address(),
            None => Err(Error::network("No port forwarding method available")),
        }
    }

    /// Stops forwarding every port: with a method of port forwarding no
    /// mapping is left; without one nothing changes.
    pub fn cleanup(&mut self) -> (r: Result<(), Error>)
        ensures
            r is Ok,
            final(self).upnp_ready() == old(self).upnp_ready(),
            final(self).nat_pmp_ready() == old(self).nat_pmp_ready(),
            final(self).spec_mappings() == if old(self).upnp_ready() || old(self).nat_pmp_ready() {
                Seq::empty()
            } else {
                old(self).spec_mappings()
            },
    {
        let mut i: usize = 0;
        let n = self.mappings.len();
        let mut ports: Vec<(u16, Protocol)> = Vec::new();
        while i < n
            invariant
                i <= n,
                n == self.mappings@.len(),
                ports@.len() == i,
            decreases n - i,
        {
            ports.push((self.mappings[i].external_port, self.mappings[i].protocol));
            i += 1;
        }
        let mut k: usize = 0;
        while k < ports.len()
            invariant
                k <= ports@.len(),
                self.upnp_ready() == old(self).upnp_ready(),
                self.nat_pmp_ready() == old(self).nat_pmp_ready(),
                !(old(self).upnp_ready() || old(self).nat_pmp_ready()) ==> self.spec_mappings()
                    == old(self).spec_mappings(),
            decreases ports@.len() - k,
        {
            let _ = self.remove_mapping(ports[k].0, ports[k].1);
            k += 1;
        }
        if self.upnp.is_some() || self.nat_pmp.is_some() {
            self.mappings = Vec::new();
        }
        Ok(())
    }

    /// Whether port mappings go through UPnP.
    pub fn has_upnp(&self) -> (b: bool)
        ensures
            b == self.upnp_ready(),
    {
        self.upnp.is_some()
    }

    /// Whether port mappings go through NAT-PMP.
    pub fn has_nat_pmp(&self) -> (b: bool)
        ensures
            b == self.nat_pmp_ready(),
    {
        self.nat_pmp.is_some()
    }

    /// The mappings added and not removed, oldest first.
    pub fn mappings(&self) -> (m: &[PortMapping])
        ensures
            m@ == self.spec_mappings(),
    {
        self.mappings.as_slice()
    }
}

impl Default for PortForwarder {
    fn default() -> (f: Self)
        ensures
            !f.upnp_ready(),
            !f.nat_pmp_ready(),
            f.spec_mappings().len() == 0,
    {
        Self::new()
    }
}

} // verus!
