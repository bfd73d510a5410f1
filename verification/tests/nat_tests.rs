use agora_core::addr::{IpAddress, SocketAddress};
use agora_core::nat_traversal::{
    hole_punch_outcome, HolePunchMethod, HolePunchResult, NatTraversal, NatType, ObservedAddr,
    StunConfig,
};
use agora_core::stun_client::{
    binding_request, binding_response_outcome, parse_binding_response, read_address_value,
    StunBinding, StunClient,
};
use agora_core::tcp_punch::{
    PunchStep, TcpHolePunchConfig, TcpHolePunchResult, TcpHolePuncher, TcpPunchMethod,
};
use agora_core::turn::{
    relay_address, TurnAllocation, TurnCandidate, TurnClient, TurnConfig, TurnPermission,
    TurnServer,
};
use agora_core::upnp::{
    NatPmpClient, NatPmpConfig, PortForwarder, PortMapping, Protocol, UpnpClient, UpnpConfig,
    UpnpDevice, UPNP_DEFAULT_LEASE_MS, UPNP_DEFAULT_TIMEOUT_MS,
};
use std::time::Duration;

fn v4(a: u8, b: u8, c: u8, d: u8, port: u16) -> SocketAddress {
    SocketAddress::new(IpAddress::V4(a, b, c, d), port)
}

#[test]
fn test_nat_type_can_hole_punch() {
    assert!(NatType::Public.can_hole_punch());
    assert!(NatType::FullCone.can_hole_punch());
    assert!(!NatType::Symmetric.can_hole_punch());
}

#[test]
fn test_nat_type_description() {
    assert!(NatType::Public.description().contains("Public"));
    assert!(NatType::Symmetric.description().contains("TURN"));
}

#[test]
fn test_observed_addr_multiaddr() {
    let addr = SocketAddress::new("1.2.3.4".parse().unwrap(), 12345);
    let local = SocketAddress::new("192.168.1.1".parse().unwrap(), 54321);
    let observed = ObservedAddr::new(addr, local, NatType::FullCone);

    assert_eq!(observed.to_multiaddr(), "/ip4/1.2.3.4/tcp/12345");
}

#[test]
fn test_stun_config_default() {
    let config = StunConfig::default();
    assert!(!config.servers.is_empty());
    assert!(config.servers[0].contains("google.com"));
}

#[test]
fn test_stun_client_creation() {
    let client = StunClient::new();
    assert!(!client.servers().is_empty());
    assert_eq!(client.timeout(), Duration::from_secs(5));
}

#[test]
fn test_stun_client_with_custom_servers() {
    let client = StunClient::with_servers(vec!["stun.example.com:3478".to_string()]);
    assert_eq!(client.servers().len(), 1);
}

#[test]
fn test_punch_method_equality() {
    assert_eq!(TcpPunchMethod::SimultaneousOpen, TcpPunchMethod::SimultaneousOpen);
    assert_ne!(TcpPunchMethod::SimultaneousOpen, TcpPunchMethod::Sequential);
}

#[test]
fn test_config_default() {
    let config = TcpHolePunchConfig::default();
    assert_eq!(config.local_port, 0);
    assert!(config.remote_endpoints.is_empty());
    assert_eq!(config.timeout, 10_000);
    assert_eq!(config.retry_count, 3);
}

#[test]
fn test_config_clone() {
    let config = TcpHolePunchConfig {
        local_port: 8080,
        remote_endpoints: vec!["127.0.0.1:8081".parse().unwrap()],
        timeout: 5_000,
        retry_count: 5,
    };
    let cloned = config.clone();
    assert_eq!(config.local_port, cloned.local_port);
    assert_eq!(config.remote_endpoints.len(), cloned.remote_endpoints.len());
}

#[test]
fn test_port_mapping_creation() {
    let mapping = PortMapping::new(7001, 7001, IpAddress::V4(192, 168, 1, 100), Protocol::Udp);

    assert_eq!(mapping.external_port, 7001);
    assert_eq!(mapping.internal_port, 7001);
    assert_eq!(mapping.protocol, Protocol::Udp);
}

#[test]
fn test_port_mapping_with_description() {
    let mapping = PortMapping::new(7001, 7001, IpAddress::V4(127, 0, 0, 1), Protocol::Tcp)
        .with_description("Test Service");

    assert_eq!(mapping.description, "Test Service");
}

#[test]
fn test_protocol_display() {
    assert_eq!(Protocol::Tcp.to_string(), "TCP");
    assert_eq!(Protocol::Udp.to_string(), "UDP");
}

#[test]
fn test_upnp_device_creation() {
    let device = UpnpDevice::new("http://192.168.1.1:49152/rootDesc.xml".to_string())
        .with_friendly_name("Test Router".to_string());

    assert_eq!(device.location, "http://192.168.1.1:49152/rootDesc.xml");
    assert_eq!(device.friendly_name, "Test Router");
}

#[test]
fn test_upnp_config_default() {
    let config = UpnpConfig::default();
    assert_eq!(config.search_timeout, UPNP_DEFAULT_TIMEOUT_MS);
    assert_eq!(config.lease_duration, UPNP_DEFAULT_LEASE_MS);
}

#[test]
fn test_upnp_client_creation() {
    let client = UpnpClient::new();
    assert!(!client.has_devices());
    assert_eq!(client.device_count(), 0);
}

#[test]
fn test_nat_pmp_config_default() {
    let config = NatPmpConfig::default();
    assert!(config.gateway.is_none());
    assert_eq!(config.retry_count, 3);
}

#[test]
fn test_nat_pmp_client_creation() {
    let client = NatPmpClient::new();
    assert!(client.gateway().is_none());
    assert!(client.external_ip().is_none());
}

#[test]
fn test_nat_pmp_client_with_gateway() {
    let client = NatPmpClient::new().with_gateway(IpAddress::V4(192, 168, 1, 1));

    assert_eq!(client.gateway(), Some(IpAddress::V4(192, 168, 1, 1)));
}

#[test]
fn test_port_forwarder_creation() {
    let forwarder = PortForwarder::new();
    assert!(!forwarder.has_upnp());
    assert!(!forwarder.has_nat_pmp());
    assert!(forwarder.mappings().is_empty());
}

#[test]
fn test_upnp_client_discover() {
    let mut client = UpnpClient::new();
    let devices = client.discover().unwrap();

    assert!(!devices.is_empty());
    assert!(client.has_devices());
    assert!(client.external_ip().is_some());
}

#[test]
fn test_upnp_add_port_mapping() {
    let mut client = UpnpClient::new();

    let mapping = PortMapping::new(7001, 7001, IpAddress::V4(192, 168, 1, 100), Protocol::Udp);

    let result = client.add_port_mapping(&mapping);
    assert!(result.is_ok());
}

#[test]
fn test_upnp_remove_port_mapping() {
    let mut client = UpnpClient::new();
    assert!(client.remove_port_mapping(7001, Protocol::Udp).is_ok());
    assert_eq!(client.device_count(), 1);
}

#[test]
fn test_nat_pmp_discover_gateway() {
    let mut client = NatPmpClient::new();
    assert_eq!(client.discover_gateway().unwrap(), IpAddress::V4(192, 168, 1, 1));
    let mut client = NatPmpClient::new().with_gateway(IpAddress::V4(10, 0, 0, 1));
    assert_eq!(client.discover_gateway().unwrap(), IpAddress::V4(10, 0, 0, 1));
}

#[test]
fn test_nat_pmp_get_external_address() {
    let mut client = NatPmpClient::new();
    assert_eq!(client.get_external_address().unwrap(), IpAddress::V4(203, 0, 113, 50));
    assert_eq!(client.gateway(), Some(IpAddress::V4(192, 168, 1, 1)));
}

#[test]
fn test_nat_pmp_map_port() {
    let mut client = NatPmpClient::new();
    assert!(client.map_port(7001, 7001, Protocol::Udp, 3_600_000).is_ok());
    assert!(client.unmap_port(7001, Protocol::Udp).is_ok());
}

#[test]
fn test_port_forwarder_setup() {
    let mut forwarder = PortForwarder::new();
    assert!(forwarder.setup().is_ok());
    assert!(forwarder.has_upnp());
}

#[test]
fn test_port_forwarder_add_mapping() {
    let mut forwarder = PortForwarder::new();
    let local = IpAddress::V4(192, 168, 1, 7);
    assert_eq!(
        forwarder.add_mapping(local, 1, 2, Protocol::Udp).unwrap_err().message(),
        "No port forwarding method available"
    );
    forwarder.setup().unwrap();
    let m = forwarder.add_mapping(local, 7001, 7002, Protocol::Udp).unwrap();
    assert_eq!((m.internal_port, m.external_port, m.internal_ip), (7001, 7002, local));
    forwarder.add_mapping(local, 7001, 7002, Protocol::Tcp).unwrap();
    forwarder.add_mapping(local, 7005, 7002, Protocol::Udp).unwrap();
    forwarder.add_mapping(local, 7003, 7003, Protocol::Udp).unwrap();
    assert_eq!(forwarder.mappings().len(), 4);
    forwarder.remove_mapping(7002, Protocol::Udp).unwrap();
    let left: Vec<(u16, Protocol)> =
        forwarder.mappings().iter().map(|m| (m.external_port, m.protocol)).collect();
    assert_eq!(left, vec![(7002, Protocol::Tcp), (7003, Protocol::Udp)]);
}

#[test]
fn test_port_forwarder_get_external_ip() {
    let mut forwarder = PortForwarder::new();
    assert!(forwarder.get_external_ip().is_err());
    forwarder.setup().unwrap();
    assert_eq!(forwarder.get_external_ip().unwrap(), IpAddress::V4(203, 0, 113, 50));
}

#[test]
fn test_turn_server_creation() {
    let server = TurnServer::from_ip(IpAddress::V4(192, 0, 2, 1), Some(3478));
    assert_eq!(server.address.port(), 3478);
    assert!(!server.use_tls);
}

#[test]
fn test_turn_server_tls() {
    let server = TurnServer::from_ip(IpAddress::V4(192, 0, 2, 1), Some(5349)).with_tls();
    assert!(server.use_tls);
}

#[test]
fn test_turn_allocation_expiry() {
    let allocation = TurnAllocation::new_at(
        "127.0.0.1:3478".parse().unwrap(),
        "203.0.113.1:50000".parse().unwrap(),
        50,
        "user".to_string(),
        None,
        1_000,
    );

    assert!(!allocation.is_expired_at(1_000));
    assert!(!allocation.is_expired_at(1_049));
    assert!(allocation.is_expired_at(1_050));
    assert!(allocation.is_expired_at(1_060));
    assert_eq!(allocation.time_until_expiry_at(1_020), 30);
    assert_eq!(allocation.time_until_expiry_at(2_000), 0);
}

#[test]
fn test_turn_allocation_needs_refresh() {
    let allocation = TurnAllocation::new(
        "127.0.0.1:3478".parse().unwrap(),
        "203.0.113.1:50000".parse().unwrap(),
        Duration::from_secs(100),
        "user".to_string(),
        None,
    );

    assert!(!allocation.needs_refresh());
    assert!(!allocation.needs_refresh_at(allocation.created_at + 39_999));
    assert!(allocation.needs_refresh_at(allocation.created_at + 40_000));
}

#[test]
fn test_turn_permission_expiry() {
    let permission = TurnPermission::new("192.168.1.1:5000".parse().unwrap());
    assert!(!permission.is_expired());
    assert!(!permission.is_expired_at(permission.created_at + 299_999));
    assert!(permission.is_expired_at(permission.created_at + 300_000));
}

#[test]
fn test_turn_client_creation() {
    let client = TurnClient::new(TurnConfig::default());
    assert!(!client.has_servers());
    assert!(!client.has_credentials());
}

#[test]
fn test_turn_client_with_servers() {
    let server = TurnServer::from_ip(IpAddress::V4(192, 0, 2, 1), None);
    assert_eq!(server.address.port(), 3478);
    let client = TurnClient::with_servers(vec![server]);

    assert!(client.has_servers());
    assert!(!client.has_credentials());
}

#[test]
fn test_turn_client_with_credentials() {
    let client =
        TurnClient::new(TurnConfig::default()).with_credentials("user".to_string(), "pass".to_string());

    assert!(client.has_credentials());
}

#[test]
fn test_turn_candidate_priority() {
    let candidate = TurnCandidate::new(
        "203.0.113.1:50000".parse().unwrap(),
        "127.0.0.1:3478".parse().unwrap(),
        0,
    );

    assert!(candidate.priority > 0);
}

#[test]
fn test_turn_candidate_to_ice() {
    let turn_candidate = TurnCandidate::new(
        "203.0.113.1:50000".parse().unwrap(),
        "127.0.0.1:3478".parse().unwrap(),
        0,
    );

    let ice_candidate = turn_candidate.to_ice_candidate();
    assert_eq!(ice_candidate.candidate_type, agora_core::ice::CandidateType::Relayed);
    assert_eq!(ice_candidate.connection_addr, "203.0.113.1:50000".parse().unwrap());
}

#[test]
fn turn_client_keeps_allocations_and_permissions() {
    let server = TurnServer::from_host("192.0.2.9", Some(99)).unwrap().with_realm("r".to_string());
    assert_eq!(server.address, v4(192, 0, 2, 9, 99));
    assert_eq!(TurnServer::from_host("192.0.2.9:7", Some(99)).unwrap().address, v4(192, 0, 2, 9, 7));
    assert_eq!(TurnServer::from_host("192.0.2.9", None).unwrap().address.port, 3478);
    assert_eq!(
        TurnServer::from_host("nowhere", None).unwrap_err().message(),
        "Invalid TURN server address 'nowhere'"
    );

    let mut anonymous = TurnClient::new(TurnConfig::default());
    assert_eq!(
        anonymous.create_allocation(&server).unwrap_err().message(),
        "TURN credentials required"
    );
    assert_eq!(anonymous.allocation_count(), 0);

    let mut client = TurnClient::new(TurnConfig::default())
        .with_credentials("user".to_string(), "pass".to_string());
    let a = client.create_allocation_with(&server, 12_345, 1_000).unwrap();
    assert_eq!(a.relayed_addr, v4(203, 0, 113, 1, 52_345));
    assert_eq!(a.server, server.address);
    assert_eq!((a.lifetime, a.created_at), (600_000, 1_000));
    assert_eq!(a.username, "user");
    assert_eq!(a.realm, Some("r".to_string()));
    let b = client.create_allocation(&server).unwrap();
    assert!(b.relayed_addr.port >= 50_000 && b.relayed_addr.port < 60_000);
    assert_eq!(client.allocation_count(), 2);
    assert_eq!(client.get_allocation(server.address).unwrap().created_at, 1_000);
    assert!(client.get_allocation(v4(1, 1, 1, 1, 1)).is_none());
    assert!(client.get_active_allocation_at(601_000).is_some());
    client.refresh_allocation_at(server.address, 700_000).unwrap();
    assert_eq!(client.get_allocation(server.address).unwrap().created_at, 700_000);

    let peer = v4(10, 0, 0, 1, 5);
    assert!(!client.has_permission_at(peer, 0));
    client.create_permission_at(peer, 100).unwrap();
    assert!(client.has_permission_at(peer, 300_099));
    assert!(!client.has_permission_at(peer, 300_100));
    assert_eq!(client.permission_count(), 1);
}

#[test]
fn hole_punch_results_are_what_they_say() {
    let l = [v4(10, 0, 0, 1, 1), v4(10, 0, 0, 2, 2)];
    let r = [v4(1, 1, 1, 1, 3), v4(2, 2, 2, 2, 4), v4(3, 3, 3, 3, 5)];
    assert_eq!(hole_punch_outcome(&l, &r, None), HolePunchResult::failed());
    assert_eq!(hole_punch_outcome(&l, &r, Some((4, 77))), HolePunchResult::direct(l[1], r[1], 77));
    assert_eq!(hole_punch_outcome(&l, &r, Some((6, 77))), HolePunchResult::failed());
    assert_eq!(hole_punch_outcome(&l, &[], Some((0, 1))), HolePunchResult::failed());
    let f = HolePunchResult::failed();
    assert!(!f.success);
    assert_eq!(f.local_addr, v4(0, 0, 0, 0, 0));
    let h = HolePunchResult::hole_punched(l[0], r[0], HolePunchMethod::Upnp, 3);
    assert!(h.success);
    assert_eq!(h.method, HolePunchMethod::Upnp);

    let mut nat = NatTraversal::new(None);
    assert_eq!(nat.get_stun_servers().len(), 4);
    assert!(matches!(nat.detect_nat_type(), Ok(NatType::Unknown)));
    assert!(nat.get_observed_address().is_none());
    nat.set_observed_address(ObservedAddr::new(l[0], r[0], NatType::Public));
    assert_eq!(nat.get_observed_address().unwrap().public_port, 1);

    for t in [NatType::Public, NatType::FullCone, NatType::RestrictedCone, NatType::PortRestricted] {
        assert!(t.can_hole_punch());
    }
    assert!(!NatType::Unknown.can_hole_punch());
    assert_eq!(NatType::Unknown.description(), "Unknown NAT type");
    let six = ObservedAddr::new(
        SocketAddress::new(IpAddress::V6(0x2001, 0xdb8, 0, 0, 0, 0, 0, 2), 9),
        l[0],
        NatType::Unknown,
    );
    assert_eq!(six.to_multiaddr(), "/ip6/2001:db8::2/tcp/9");
}

#[test]
fn stun_messages_are_written_and_read_to_the_byte() {
    let tid = [1u8, 2, 3, 4, 5, 6, 7, 8, 9, 10, 11, 12];
    let request = binding_request(&tid);
    assert_eq!(
        request,
        vec![0, 1, 0, 0, 0x21, 0x12, 0xa4, 0x42, 1, 2, 3, 4, 5, 6, 7, 8, 9, 10, 11, 12]
    );

    let mut response = vec![0x01, 0x01, 0x00, 0x14, 0x21, 0x12, 0xa4, 0x42];
    response.extend_from_slice(&tid);
    response.extend_from_slice(&[0x80, 0x22, 0x00, 0x03, b'a', b'b', b'c', 0x00]);
    response.extend_from_slice(&[0x00, 0x20, 0x00, 0x08, 0x00, 0x01, 0xa1, 0x47, 0xe1, 0x12, 0xa6, 0x43]);
    assert_eq!(parse_binding_response(&response).unwrap(), v4(192, 0, 2, 1, 32853));
    response.extend_from_slice(&[9, 9, 9]);
    assert_eq!(parse_binding_response(&response).unwrap(), v4(192, 0, 2, 1, 32853));

    let mut six = vec![0x01, 0x01, 0x00, 0x18, 0x21, 0x12, 0xa4, 0x42];
    six.extend_from_slice(&tid);
    six.extend_from_slice(&[0x00, 0x20, 0x00, 0x14, 0x00, 0x02, 0x21, 0x13]);
    six.extend_from_slice(&[0x01, 0x13, 0xa9, 0xfa]);
    six.extend_from_slice(&tid[..11]);
    six.push(12 ^ 1);
    assert_eq!(
        parse_binding_response(&six).unwrap(),
        SocketAddress::new(IpAddress::V6(0x2001, 0x0db8, 0, 0, 0, 0, 0, 1), 1)
    );

    let bad = |f: &dyn Fn(&mut Vec<u8>)| {
        let mut r = response[..response.len() - 3].to_vec();
        f(&mut r);
        parse_binding_response(&r).unwrap_err().message()
    };
    assert_eq!(bad(&|r| r.truncate(19)), "Failed to decode STUN response");
    assert_eq!(bad(&|r| r[4] = 0), "Failed to decode STUN response");
    assert_eq!(bad(&|r| r.truncate(39)), "Failed to decode STUN response");
    assert_eq!(bad(&|r| r[23] = 0x30), "Failed to decode STUN response");
    assert_eq!(bad(&|r| r[1] = 0x11), "Invalid STUN response type");
    assert_eq!(bad(&|r| r[0] = 0x00), "Invalid STUN response type");
    assert_eq!(bad(&|r| r[29] = 0x21), "Failed to get XOR-MAPPED-ADDRESS");
    assert_eq!(bad(&|r| r[33] = 0x03), "Failed to get XOR-MAPPED-ADDRESS");
    assert_eq!(bad(&|r| r[3] = 0x08), "Failed to get XOR-MAPPED-ADDRESS");
}

#[test]
fn a_response_is_judged_by_what_was_found_in_it() {
    let four = vec![0, 1, 0x80, 0x55, 192, 0, 2, 1];
    let mut six = vec![0, 2, 0, 1, 0x20, 0x01, 0x0d, 0xb8];
    six.extend_from_slice(&[0, 0, 0, 0, 0, 0, 0, 0, 0, 0, 0, 1]);
    assert_eq!(read_address_value(&four), Some(v4(192, 0, 2, 1, 32853)));
    assert_eq!(
        read_address_value(&six),
        Some(SocketAddress::new(IpAddress::V6(0x2001, 0x0db8, 0, 0, 0, 0, 0, 1), 1))
    );
    for bad in [
        vec![],
        vec![0, 1, 0, 1, 1, 2, 3],
        vec![0, 1, 0, 1, 1, 2, 3, 4, 5],
        vec![0, 2, 0, 1, 1, 2, 3, 4],
        vec![0, 3, 0, 1, 1, 2, 3, 4],
        vec![1, 1, 0, 1, 1, 2, 3, 4],
        six[..19].to_vec(),
    ] {
        assert_eq!(read_address_value(&bad), None, "{:?}", bad);
    }

    assert_eq!(
        binding_response_outcome(true, 0x0101, Some(four.clone())).unwrap(),
        v4(192, 0, 2, 1, 32853)
    );
    assert_eq!(
        binding_response_outcome(true, 0x0101, Some(six.clone())).unwrap(),
        SocketAddress::new(IpAddress::V6(0x2001, 0x0db8, 0, 0, 0, 0, 0, 1), 1)
    );
    let reason = |decodes, message_type, mapped| {
        binding_response_outcome(decodes, message_type, mapped).unwrap_err().message()
    };
    assert_eq!(reason(false, 0x0101, Some(four.clone())), "Failed to decode STUN response");
    assert_eq!(reason(false, 0, None), "Failed to decode STUN response");
    assert_eq!(reason(true, 0x0001, Some(four.clone())), "Invalid STUN response type");
    assert_eq!(reason(true, 0x0111, Some(four.clone())), "Invalid STUN response type");
    assert_eq!(reason(true, 0x0101, None), "Failed to get XOR-MAPPED-ADDRESS");
    assert_eq!(reason(true, 0x0101, Some(vec![0, 1, 0, 1])), "Failed to get XOR-MAPPED-ADDRESS");
}

#[test]
fn nat_kind_follows_from_two_bindings() {
    let binding = |d: u8, port: u16| StunBinding {
        public_ip: IpAddress::V4(1, 2, 3, d),
        public_port: port,
        server: "s".to_string(),
    };
    let client = StunClient::new().with_local_port(7).with_timeout_ms(9);
    assert_eq!(client.timeout_ms(), 9);
    assert_eq!(client.local_bind_address(), v4(0, 0, 0, 0, 7));
    assert_eq!(client.second_opinion_server().unwrap(), "stun1.l.google.com:19302");

    let r = client.probe_result(None, Some(binding(4, 5)));
    assert!(r.binding.is_none() && !r.can_hole_punch);
    assert_eq!(r.nat_type, NatType::Unknown);
    let r = client.probe_result(Some(binding(4, 5)), Some(binding(4, 5)));
    assert_eq!(r.nat_type, NatType::FullCone);
    assert!(r.can_hole_punch);
    let r = client.probe_result(Some(binding(4, 5)), Some(binding(4, 6)));
    assert_eq!(r.nat_type, NatType::Symmetric);
    assert!(!r.can_hole_punch);
    assert_eq!(client.probe_result(Some(binding(4, 5)), Some(binding(5, 5))).nat_type, NatType::Symmetric);
    assert_eq!(client.probe_result(Some(binding(4, 5)), None).nat_type, NatType::Unknown);

    let single = StunClient::with_servers(vec!["one:1".to_string()]);
    assert!(single.second_opinion_server().is_none());
    let r = single.probe_result(Some(binding(4, 5)), Some(binding(4, 5)));
    assert_eq!(r.nat_type, NatType::Unknown);
    assert!(r.binding.is_some());
}

#[test]
fn tcp_punch_steps_follow_the_plan() {
    let puncher = TcpHolePuncher::new(TcpHolePunchConfig { local_port: 9000, ..TcpHolePunchConfig::default() });
    assert_eq!(puncher.local_bind_address(), v4(0, 0, 0, 0, 9000));
    assert_eq!(
        puncher.get_local_endpoints(&[IpAddress::V4(10, 0, 0, 5), IpAddress::V4(10, 0, 0, 6)]),
        vec![v4(0, 0, 0, 0, 9000), v4(10, 0, 0, 5, 9000), v4(10, 0, 0, 6, 9000)]
    );
    assert_eq!(
        puncher.check_peer_endpoints(&[]).unwrap_err().message(),
        "No peer endpoints provided"
    );
    assert!(puncher.check_peer_endpoints(&[v4(1, 1, 1, 1, 1)]).is_ok());

    assert_eq!(puncher.first_step(), PunchStep::SimultaneousOpen { attempt: 0 });
    assert_eq!(puncher.after_simultaneous_open(0, None, 10), PunchStep::Pause { next_attempt: 1 });
    assert_eq!(puncher.after_simultaneous_open(1, None, 20), PunchStep::Pause { next_attempt: 2 });
    assert_eq!(puncher.after_simultaneous_open(2, None, 30), PunchStep::Sequential);
    let peer = v4(9, 9, 9, 9, 9);
    match puncher.after_simultaneous_open(1, Some(peer), 25) {
        PunchStep::Done { result } => {
            assert!(result.success);
            assert_eq!(result.connected_addr, Some(peer));
            assert_eq!(result.latency_ms, 25);
            assert_eq!(result.method, TcpPunchMethod::SimultaneousOpen);
        }
        other => panic!("{:?}", other),
    }
    let swept = puncher.after_sequential(Some(peer), 40);
    assert_eq!((swept.success, swept.method), (true, TcpPunchMethod::Sequential));
    let lost = puncher.after_sequential(None, 50);
    assert_eq!((lost.success, lost.connected_addr, lost.method), (false, None, TcpPunchMethod::Direct));

    let any = TcpHolePuncher::new(TcpHolePunchConfig { retry_count: 0, ..TcpHolePunchConfig::default() });
    assert_eq!(any.first_step(), PunchStep::Sequential);
    assert_eq!(any.get_local_endpoints(&[IpAddress::V4(10, 0, 0, 5)]), vec![v4(0, 0, 0, 0, 0)]);
    assert_eq!(any.after_simultaneous_open(255, None, 0), PunchStep::Sequential);
}

#[test]
fn test_hole_puncher_no_endpoints() {
    let config = TcpHolePunchConfig {
        local_port: 0,
        remote_endpoints: vec![],
        timeout: 100,
        retry_count: 1,
    };
    let puncher = TcpHolePuncher::new(config);
    let peer_endpoints: Vec<SocketAddress> = vec![];

    assert_eq!(puncher.first_step(), PunchStep::SimultaneousOpen { attempt: 0 });
    assert!(puncher.check_peer_endpoints(&peer_endpoints).is_err());
    assert_eq!(puncher.after_simultaneous_open(0, None, 1), PunchStep::Sequential);
    let result = puncher.after_sequential(None, 2);
    assert!(!result.success);
    assert!(result.connected_addr.is_none());
}

#[test]
fn test_hole_puncher_result_failure() {
    let result = TcpHolePunchResult {
        success: false,
        connected_addr: None,
        latency_ms: 100,
        method: TcpPunchMethod::Direct,
    };
    assert!(!result.success);
    assert!(result.connected_addr.is_none());
}

#[test]
fn test_hole_punch_result_success() {
    let result = TcpHolePunchResult {
        success: true,
        connected_addr: Some("127.0.0.1:8080".parse().unwrap()),
        latency_ms: 50,
        method: TcpPunchMethod::SimultaneousOpen,
    };
    assert!(result.success);
    assert!(result.connected_addr.is_some());
    assert_eq!(result.method, TcpPunchMethod::SimultaneousOpen);
}

#[test]
fn test_simultaneous_open_no_endpoints() {
    let config = TcpHolePunchConfig::default();
    let puncher = TcpHolePuncher::new(config);

    let result = puncher.check_peer_endpoints(&[]);
    assert!(result.is_err());
}

#[test]
fn test_get_local_endpoints() {
    let config = TcpHolePunchConfig {
        local_port: 8080,
        remote_endpoints: vec![],
        timeout: 5_000,
        retry_count: 3,
    };
    let puncher = TcpHolePuncher::new(config);

    let endpoints = puncher.get_local_endpoints(&[]);
    assert!(!endpoints.is_empty());
    assert_eq!(endpoints, vec![v4(0, 0, 0, 0, 8080)]);
}

#[test]
fn test_result_debug() {
    let result = TcpHolePunchResult {
        success: true,
        connected_addr: Some("127.0.0.1:8080".parse().unwrap()),
        latency_ms: 50,
        method: TcpPunchMethod::SimultaneousOpen,
    };

    let debug_str = format!("{:?}", result);
    assert!(debug_str.contains("success: true"));
}

#[test]
fn test_config_debug() {
    let config = TcpHolePunchConfig::default();
    let debug_str = format!("{:?}", config);
    assert!(debug_str.contains("local_port"));
}

#[test]
fn turn_allocations_age_by_the_clock() {
    let server = v4(192, 0, 2, 9, 3478);
    let relayed = v4(203, 0, 113, 1, 50_001);
    let a = TurnAllocation::new_at(server, relayed, 600_000, "u".to_string(), None, 1_000);
    assert!(!a.is_expired_at(0));
    assert!(!a.is_expired_at(600_999));
    assert!(a.is_expired_at(601_000));
    assert_eq!(a.time_until_expiry_at(0), 600_000);
    assert_eq!(a.time_until_expiry_at(1_500), 599_500);
    assert_eq!(a.time_until_expiry_at(601_000), 0);
    assert_eq!(a.time_until_expiry_at(u64::MAX), 0);
    assert!(!a.needs_refresh_at(540_999));
    assert!(a.needs_refresh_at(541_000));
    let short = TurnAllocation::new_at(server, relayed, 60_000, "u".to_string(), None, 1_000);
    assert!(short.needs_refresh_at(0) && !short.is_expired_at(0));
    let copy = a.duplicate();
    assert_eq!((copy.server, copy.relayed_addr, copy.lifetime, copy.created_at), (server, relayed, 600_000, 1_000));
    assert_eq!((copy.username.as_str(), copy.realm), ("u", None));

    let live = TurnAllocation::new(server, relayed, Duration::from_secs(600), "u".to_string(), None);
    assert_eq!(live.lifetime, 600_000);
    assert!(!live.is_expired() && !live.needs_refresh());
    let left = live.time_until_expiry();
    assert!(left <= Duration::from_secs(600) && left > Duration::from_secs(590));
    let gone = TurnAllocation::new(server, relayed, Duration::ZERO, "u".to_string(), None);
    assert!(gone.is_expired() && gone.needs_refresh());
    assert_eq!(gone.time_until_expiry(), Duration::ZERO);

    let p = TurnPermission::new_at(relayed, 10);
    assert_eq!(p.lifetime, 300_000);
    assert!(!p.is_expired_at(0) && !p.is_expired_at(300_009) && p.is_expired_at(300_010));
    assert!(!TurnPermission::new(relayed).is_expired());
}

#[test]
fn relay_addresses_come_from_the_draw() {
    assert_eq!(relay_address(0), v4(203, 0, 113, 1, 50_000));
    assert_eq!(relay_address(9_999), v4(203, 0, 113, 1, 59_999));
    assert_eq!(relay_address(10_000), v4(203, 0, 113, 1, 50_000));
    assert_eq!(relay_address(65_535), v4(203, 0, 113, 1, 55_535));
}

#[test]
fn turn_client_forgets_what_is_expired() {
    let one = TurnServer::new(v4(192, 0, 2, 1, 3478));
    let two = TurnServer::new(v4(192, 0, 2, 2, 3478)).with_tls();
    assert!(two.use_tls && !one.use_tls);
    let copy = two.duplicate();
    assert_eq!((copy.address, copy.use_tls, copy.realm), (two.address, true, None));
    let mut client = TurnClient::with_servers(vec![one.duplicate(), two.duplicate()])
        .with_credentials("user".to_string(), "pass".to_string());
    assert!(client.has_servers() && client.has_credentials());

    client.create_allocation_with(&one, 1, 0).unwrap();
    client.create_allocation_with(&two, 2, 100_000).unwrap();
    client.create_allocation_with(&one, 3, 200_000).unwrap();
    let peer = v4(10, 0, 0, 1, 5);
    let other = v4(10, 0, 0, 2, 5);
    client.create_permission_at(peer, 0).unwrap();
    client.create_permission_at(other, 400_000).unwrap();

    assert_eq!(client.get_active_allocation_at(599_999).unwrap().relayed_addr.port, 50_001);
    assert_eq!(client.get_active_allocation_at(600_000).unwrap().relayed_addr.port, 50_002);
    assert_eq!(client.get_active_allocation_at(700_000).unwrap().relayed_addr.port, 50_003);
    assert!(client.get_active_allocation_at(800_000).is_none());

    client.cleanup_expired_at(650_000);
    assert_eq!((client.allocation_count(), client.permission_count()), (2, 1));
    assert_eq!(client.get_allocation(one.address).unwrap().relayed_addr.port, 50_003);
    assert!(!client.has_permission_at(peer, 650_000));
    assert!(client.has_permission_at(other, 650_000));
    client.cleanup_expired_at(u64::MAX);
    assert_eq!((client.allocation_count(), client.permission_count()), (0, 0));
    assert!(client.get_allocation(one.address).is_none());
}

#[test]
fn turn_client_reads_the_clock() {
    let server = TurnServer::new(v4(192, 0, 2, 1, 3478));
    let mut client = TurnClient::new(TurnConfig::default())
        .with_credentials("user".to_string(), "pass".to_string());
    assert!(client.get_active_allocation().is_none());
    client.create_allocation_with(&server, 7, 0).unwrap();
    assert!(client.get_active_allocation().is_none());
    client.refresh_allocation(server.address).unwrap();
    let active = client.get_active_allocation().unwrap();
    assert_eq!(active.relayed_addr.port, 50_007);
    assert!(active.created_at > 0 && !active.is_expired());
    client.refresh_allocation(v4(9, 9, 9, 9, 9)).unwrap();
    assert_eq!(client.allocation_count(), 1);

    let peer = v4(10, 0, 0, 1, 5);
    assert!(!client.has_permission(peer));
    client.create_permission_at(peer, 0).unwrap();
    assert!(!client.has_permission(peer));
    client.create_permission(peer).unwrap();
    assert!(client.has_permission(peer));
    assert!(!client.has_permission(v4(10, 0, 0, 1, 6)));
    client.cleanup_expired();
    assert_eq!((client.allocation_count(), client.permission_count()), (1, 1));
}

#[test]
fn port_mappings_are_built_and_let_go() {
    let local = IpAddress::V4(192, 168, 1, 7);
    let m = PortMapping::new(1, 2, local, Protocol::Tcp).with_lease_duration(5).with_description("d");
    assert_eq!((m.external_port, m.internal_port, m.lease_duration), (1, 2, 5));
    assert_eq!(m.description, "d");
    let copy = m.duplicate();
    assert_eq!((copy.external_port, copy.internal_port, copy.internal_ip), (1, 2, local));
    assert_eq!((copy.protocol, copy.lease_duration, copy.description.as_str()), (Protocol::Tcp, 5, "d"));

    let d = UpnpDevice::new("http://gw/desc.xml".to_string())
        .with_friendly_name("gw".to_string())
        .with_control_url("/ctl".to_string());
    assert_eq!((d.friendly_name.as_str(), d.control_url.as_str()), ("gw", "/ctl"));
    let copy = d.duplicate();
    assert_eq!((copy.location, copy.friendly_name, copy.control_url), (d.location, d.friendly_name, d.control_url));
    assert_eq!(copy.service_type, d.service_type);

    let config = UpnpConfig { search_timeout: 1, lease_duration: 100, description: "x".to_string() };
    let client = UpnpClient::with_config(config);
    assert!(!client.has_devices());
    assert_eq!(client.granted_lease(&m), 5);
    assert_eq!(client.granted_lease(&PortMapping::new(1, 2, local, Protocol::Udp)), 100);
    assert_eq!(client.granted_lease(&m.duplicate().with_lease_duration(100)), 100);
    assert!(client.get_mappings().unwrap().is_empty());

    let mut idle = PortForwarder::new();
    assert!(idle.cleanup().is_ok());
    let mut forwarder = PortForwarder::new();
    forwarder.setup().unwrap();
    forwarder.add_mapping(local, 7001, 7002, Protocol::Udp).unwrap();
    forwarder.add_mapping(local, 7003, 7004, Protocol::Tcp).unwrap();
    assert_eq!(forwarder.mappings().len(), 2);
    assert!(forwarder.cleanup().is_ok());
    assert!(forwarder.mappings().is_empty());
    assert!(forwarder.has_upnp());
}

#[test]
fn the_nat_kind_is_read_off_two_bindings() {
    let binding = |d: u8, port: u16| StunBinding {
        public_ip: IpAddress::V4(1, 2, 3, d),
        public_port: port,
        server: "s".to_string(),
    };
    assert_eq!(StunClient::determine_nat_type(&binding(4, 5), &Some(binding(4, 5))), NatType::FullCone);
    assert_eq!(StunClient::determine_nat_type(&binding(4, 5), &Some(binding(4, 6))), NatType::Symmetric);
    assert_eq!(StunClient::determine_nat_type(&binding(4, 5), &Some(binding(3, 5))), NatType::Symmetric);
    assert_eq!(StunClient::determine_nat_type(&binding(4, 5), &None), NatType::Unknown);

    let client = StunClient::new().with_timeout(Duration::from_millis(1_250));
    assert_eq!(client.timeout_ms(), 1_250);
    assert_eq!(client.timeout(), Duration::from_millis(1_250));
    assert_eq!(client.servers().len(), 5);
    assert_eq!(client.servers()[4], "stun4.l.google.com:19302");
    assert_eq!(client.local_port(), 0);
}
