use agora_core::addr::{IpAddress, SocketAddress};
use agora_core::ice::{
    parse_candidate_from_sdp, resolve_turn_url, Candidate, CandidatePair, CandidatePairState,
    CandidateType, CheckStep, ConnectionState, IceAgent, IceConfig, IceRole, NominationMode,
    TransportType, TurnServer,
};

fn v4(a: u8, b: u8, c: u8, d: u8, port: u16) -> SocketAddress {
    SocketAddress::new(IpAddress::V4(a, b, c, d), port)
}

#[test]
fn test_candidate_priority() {
    let host = Candidate::new_host(v4(192, 168, 1, 1, 1234), 1);
    let srflx = Candidate::new_server_reflexive(v4(1, 2, 3, 4, 5678), v4(192, 168, 1, 1, 1234), 1);

    assert!(host.priority > srflx.priority);
}

#[test]
fn test_candidate_to_sdp() {
    let candidate = Candidate::new_host(v4(192, 168, 1, 1, 1234), 1);

    let sdp = candidate.to_sdp();
    assert!(sdp.contains("host"));
    assert!(sdp.contains("192.168.1.1"));
    assert!(sdp.contains("1234"));
}

#[test]
fn test_candidate_pair_priority() {
    let local = Candidate::new_host(v4(192, 168, 1, 1, 1234), 1);
    let remote = Candidate::new_host(v4(10, 0, 0, 1, 5678), 1);

    let pair = CandidatePair::new(local, remote);
    assert!(pair.priority > 0);
}

#[test]
fn test_parse_candidate_from_sdp() {
    let sdp = "candidate:123 1 UDP 12345 192.168.1.1 1234 typ host";
    let candidate = parse_candidate_from_sdp(sdp);

    assert!(candidate.is_some());
    let c = candidate.unwrap();
    assert_eq!(c.foundation, "123");
    assert_eq!(c.component_id, 1);
    assert_eq!(c.transport, TransportType::Udp);
    assert_eq!(c.priority, 12345);
    assert_eq!(c.candidate_type, CandidateType::Host);
}

#[test]
fn test_ice_agent_creation() {
    let agent = IceAgent::new(None);
    assert_eq!(agent.state(), ConnectionState::New);
    assert!(agent.local_candidates().is_empty());
}

#[test]
fn test_ice_agent_with_turn_server() {
    let agent = IceAgent::new(None).with_turn_server(
        "192.0.2.1:3478".to_string(),
        Some("user".to_string()),
        Some("pass".to_string()),
    );

    assert!(agent.has_turn_servers());
}

#[test]
fn test_relayed_candidate_creation() {
    let relay_addr = v4(203, 0, 113, 1, 50000);
    let server_addr = v4(192, 0, 2, 1, 3478);

    let candidate = Candidate::new_relayed(relay_addr, server_addr, 1);

    assert_eq!(candidate.candidate_type, CandidateType::Relayed);
    assert_eq!(candidate.connection_addr, relay_addr);
    assert_eq!(candidate.related_addr, Some(server_addr));
}

#[test]
fn test_relayed_candidate_to_sdp() {
    let relay_addr = v4(203, 0, 113, 1, 50000);
    let server_addr = v4(192, 0, 2, 1, 3478);

    let candidate = Candidate::new_relayed(relay_addr, server_addr, 1);
    let sdp = candidate.to_sdp();

    assert!(sdp.contains("typ relay"));
    assert!(sdp.contains("203.0.113.1"));
}

#[test]
fn candidate_priorities_follow_the_formula() {
    assert_eq!(Candidate::compute_priority(CandidateType::Host, 0, 1), 126 * 16777216 + 255);
    assert_eq!(
        Candidate::compute_priority(CandidateType::PeerReflexive, 0, 1),
        110 * 16777216 + 255
    );
    assert_eq!(
        Candidate::compute_priority(CandidateType::ServerReflexive, 65535, 2),
        100 * 16777216 + 256 * 65535 + 254
    );
    assert_eq!(Candidate::compute_priority(CandidateType::Relayed, 0, 256), 0);
    assert_eq!(Candidate::compute_priority(CandidateType::Relayed, 1, 1), 256 + 255);
    let host = Candidate::compute_priority(CandidateType::Host, 7, 3);
    let prflx = Candidate::compute_priority(CandidateType::PeerReflexive, 7, 3);
    let srflx = Candidate::compute_priority(CandidateType::ServerReflexive, 7, 3);
    let relay = Candidate::compute_priority(CandidateType::Relayed, 7, 3);
    assert!(host > prflx && prflx > srflx && srflx > relay);
}

#[test]
fn pair_priority_follows_the_formula_and_is_symmetric() {
    let mut a = Candidate::new_host(v4(10, 0, 0, 1, 1), 1);
    let mut b = Candidate::new_host(v4(10, 0, 0, 2, 2), 1);
    a.priority = 5;
    b.priority = 3;
    let ab = CandidatePair::new(a.clone(), b.clone());
    let ba = CandidatePair::new(b.clone(), a.clone());
    assert_eq!(ab.priority, (1u64 << 32) * 3 + 2 * 5 + 1);
    assert_eq!(ab.priority, ba.priority);
    b.priority = 5;
    let equal = CandidatePair::new(a, b);
    assert_eq!(equal.priority, (1u64 << 32) * 5 + 2 * 5);
    assert_eq!(equal.state, CandidatePairState::Frozen);
    assert!(!equal.nominated);
}

#[test]
fn sdp_lines_read_as_written() {
    let host = Candidate::new_host(v4(192, 168, 1, 1, 1234), 1);
    assert_eq!(host.foundation, "host-192.168.1.1:1234");
    assert_eq!(
        host.to_sdp(),
        "candidate:host-192.168.1.1:1234 1 udp 2113929471 192.168.1.1 1234 typ host"
    );
    let back = parse_candidate_from_sdp(&host.to_sdp()).unwrap();
    assert!(back.same_as(&host));

    let relay = Candidate::new_relayed(v4(203, 0, 113, 1, 50000), v4(192, 0, 2, 1, 3478), 1);
    assert_eq!(
        relay.to_sdp(),
        "candidate:relay-203.0.113.1:50000 1 udp 255 203.0.113.1 50000 typ relay raddr 192.0.2.1 rport 3478"
    );
    let back = parse_candidate_from_sdp(&relay.to_sdp()).unwrap();
    assert_eq!(back.candidate_type, CandidateType::Relayed);
    assert_eq!(back.connection_addr, v4(203, 0, 113, 1, 50000));
    assert_eq!(back.base_addr, back.connection_addr);
    assert_eq!(back.related_addr, None);
}

#[test]
fn sdp_lines_are_refused_for_every_fault() {
    let ok = "candidate:f  2\tTcp +7 10.0.0.1 65535 typ  prflx  extra words";
    let c = parse_candidate_from_sdp(ok).unwrap();
    assert_eq!(c.foundation, "f");
    assert_eq!(c.component_id, 2);
    assert_eq!(c.transport, TransportType::Tcp);
    assert_eq!(c.priority, 7);
    assert_eq!(c.connection_addr, v4(10, 0, 0, 1, 65535));
    assert_eq!(c.candidate_type, CandidateType::PeerReflexive);
    assert_eq!(parse_candidate_from_sdp("candidate: 1 udp 1 1.2.3.4 5 typ srflx").unwrap().foundation, "");

    for bad in [
        "",
        "candidate:1 1 udp 1 1.2.3.4 5 typ",
        "candidat:1 1 udp 1 1.2.3.4 5 typ host",
        "candidate:1 65536 udp 1 1.2.3.4 5 typ host",
        "candidate:1 -1 udp 1 1.2.3.4 5 typ host",
        "candidate:1 1 sctp 1 1.2.3.4 5 typ host",
        "candidate:1 1 udp 4294967296 1.2.3.4 5 typ host",
        "candidate:1 1 udp 1 1.2.3 5 typ host",
        "candidate:1 1 udp 1 1.2.3.256 5 typ host",
        "candidate:1 1 udp 1 1.2.3.04 5 typ host",
        "candidate:1 1 udp 1 1.2.3.4 65536 typ host",
        "candidate:1 1 udp 1 1.2.3.4 5 type host",
        "candidate:1 1 udp 1 1.2.3.4 5 typ Host",
    ] {
        assert!(parse_candidate_from_sdp(bad).is_none(), "{}", bad);
    }
}

#[test]
fn pairs_are_formed_sorted_and_drawn_into_a_checklist() {
    let mut agent = IceAgent::new(None).with_role(IceRole::Controlled);
    assert_eq!(agent.role(), IceRole::Controlled);
    agent.add_host_candidate(v4(192, 168, 1, 1, 1000));
    assert!(agent.add_relayed_candidate(v4(203, 0, 113, 1, 50001), v4(192, 0, 2, 1, 3478)));
    assert!(agent.add_server_reflexive_candidate(v4(1, 2, 3, 4, 5)));
    assert_eq!(agent.local_candidates().len(), 3);
    assert_eq!(agent.local_candidates()[2].base_addr, v4(192, 168, 1, 1, 1000));
    assert_eq!(agent.state(), ConnectionState::New);

    let remote = Candidate::new_host(v4(10, 0, 0, 9, 9), 1);
    agent.add_remote_candidate(remote.clone());
    agent.add_remote_candidate(remote);
    assert_eq!(agent.remote_candidates().len(), 1);
    assert_eq!(agent.state(), ConnectionState::Checking);

    let pairs = agent.candidate_pairs();
    assert_eq!(pairs.len(), 3);
    assert!(pairs[0].priority >= pairs[1].priority && pairs[1].priority >= pairs[2].priority);
    assert_eq!(pairs[0].local.candidate_type, CandidateType::Host);
    assert_eq!(pairs[1].local.candidate_type, CandidateType::ServerReflexive);
    assert_eq!(pairs[2].local.candidate_type, CandidateType::Relayed);
    for p in agent.checklist() {
        assert_eq!(p.state, CandidatePairState::Waiting);
    }
    for p in agent.candidate_pairs() {
        assert_eq!(p.state, CandidatePairState::Frozen);
    }

    agent.form_candidate_pairs();
    assert_eq!(agent.candidate_pairs().len(), 3);
    assert_eq!(
        agent.get_local_sdp().lines().count(),
        3
    );
}

#[test]
fn base_address_prefers_routable_ipv4_hosts() {
    let mut agent = IceAgent::new(None);
    assert_eq!(agent.find_base_address(), None);
    assert!(!agent.add_server_reflexive_candidate(v4(1, 2, 3, 4, 5)));
    agent.add_host_candidate(v4(127, 0, 0, 1, 1));
    assert_eq!(agent.find_base_address(), Some(v4(127, 0, 0, 1, 1)));
    agent.add_host_candidate(v4(169, 254, 3, 4, 2));
    agent.add_host_candidate(SocketAddress::new(IpAddress::V6(0x2001, 0xdb8, 0, 0, 0, 0, 0, 1), 3));
    assert_eq!(agent.find_base_address(), Some(v4(127, 0, 0, 1, 1)));
    agent.add_host_candidate(v4(10, 1, 2, 3, 4));
    assert_eq!(agent.find_base_address(), Some(v4(10, 1, 2, 3, 4)));
}

fn agent_with_two_pairs(mode: NominationMode, timeout: u64) -> IceAgent {
    let mut config = IceConfig::default();
    config.nomination_mode = mode;
    config.connectivity_timeout = timeout;
    let mut agent = IceAgent::new(Some(config));
    agent.add_host_candidate(v4(192, 168, 1, 1, 1000));
    agent.add_host_candidate(v4(192, 168, 1, 2, 1000));
    agent.add_remote_candidate(Candidate::new_host(v4(10, 0, 0, 9, 9), 1));
    assert_eq!(agent.checklist().len(), 2);
    agent
}

#[test]
fn regular_checks_probe_every_pending_pair_once() {
    let mut agent = agent_with_two_pairs(NominationMode::Regular, 5_000);
    agent.begin_checks(100);
    let step = agent.next_check_step(100);
    assert_eq!(
        step,
        CheckStep::Probe { index: 0, local: v4(192, 168, 1, 1, 1000), remote: v4(10, 0, 0, 9, 9) }
    );
    assert_eq!(agent.checklist()[0].state, CandidatePairState::InProgress);
    assert_eq!(agent.checklist()[0].last_check, Some(100));
    agent.record_check(1, Some(5));
    assert_eq!(agent.checklist()[1].state, CandidatePairState::Waiting);
    agent.record_check(0, None);
    assert_eq!(agent.checklist()[0].state, CandidatePairState::Failed);

    let step = agent.next_check_step(110);
    assert_eq!(
        step,
        CheckStep::Probe { index: 1, local: v4(192, 168, 1, 2, 1000), remote: v4(10, 0, 0, 9, 9) }
    );
    agent.record_check(1, Some(17));
    assert_eq!(agent.checklist()[1].state, CandidatePairState::Succeeded);
    assert_eq!(agent.checklist()[1].round_trip_time, Some(17));
    assert!(!agent.checklist()[1].nominated);
    assert!(agent.selected_pair().is_none());

    assert_eq!(agent.next_check_step(120), CheckStep::Pause);
    assert_eq!(agent.next_check_step(170), CheckStep::Done);
    assert!(agent.finalize_selection().is_ok());
    assert_eq!(agent.state(), ConnectionState::Connected);
    assert_eq!(
        agent.get_selected_connection(),
        Some((v4(192, 168, 1, 2, 1000), v4(10, 0, 0, 9, 9)))
    );
}

#[test]
fn aggressive_checks_nominate_the_first_success_and_cut_the_round() {
    let mut agent = agent_with_two_pairs(NominationMode::Aggressive, 5_000);
    agent.begin_checks(0);
    assert!(matches!(agent.next_check_step(0), CheckStep::Probe { index: 0, .. }));
    agent.record_check(0, Some(9));
    assert!(agent.checklist()[0].nominated);
    assert_eq!(agent.selected_pair().unwrap().round_trip_time, Some(9));
    assert_eq!(agent.next_check_step(1), CheckStep::Pause);
    assert!(matches!(agent.next_check_step(51), CheckStep::Probe { index: 1, .. }));
    agent.record_check(1, None);
    assert_eq!(agent.next_check_step(52), CheckStep::Pause);
    assert_eq!(agent.next_check_step(102), CheckStep::Done);
    assert!(agent.finalize_selection().is_ok());
    assert_eq!(agent.selected_pair().unwrap().local.connection_addr, v4(192, 168, 1, 1, 1000));
}

#[test]
fn checks_stop_when_the_budget_is_spent_and_fail_without_success() {
    let mut agent = agent_with_two_pairs(NominationMode::Regular, 1_000);
    agent.begin_checks(5_000);
    assert_eq!(agent.next_check_step(6_000), CheckStep::Done);
    let err = agent.finalize_selection().unwrap_err();
    assert_eq!(err.message(), "No valid candidate pairs found");
    assert_eq!(agent.state(), ConnectionState::Failed);

    let mut empty = IceAgent::new(None);
    empty.begin_checks(0);
    assert_eq!(empty.next_check_step(0), CheckStep::Done);
    assert!(empty.finalize_selection().is_err());
}

#[test]
fn nominating_selects_the_pair() {
    let mut agent = agent_with_two_pairs(NominationMode::Regular, 5_000);
    agent.nominate_pair(7);
    assert!(agent.selected_pair().is_none());
    agent.nominate_pair(1);
    assert!(agent.checklist()[1].nominated);
    assert_eq!(agent.selected_pair().unwrap().local.connection_addr, v4(192, 168, 1, 2, 1000));
}

#[test]
fn relayed_candidates_come_from_servers_with_credentials() {
    let servers = vec![
        TurnServer { url: "192.0.2.1:3478".to_string(), username: None, password: Some("p".to_string()) },
        TurnServer {
            url: "192.0.2.2".to_string(),
            username: Some("u".to_string()),
            password: Some("p".to_string()),
        },
        TurnServer {
            url: "192.0.2.3:99".to_string(),
            username: Some("u".to_string()),
            password: Some("p".to_string()),
        },
    ];
    let mut agent = IceAgent::new(None).with_turn_servers(servers);
    assert!(agent.gather_relayed_candidates().is_ok());
    let locals = agent.local_candidates();
    assert_eq!(locals.len(), 2);
    assert_eq!(locals[0].base_addr, v4(192, 0, 2, 2, 3478));
    assert_eq!(locals[1].base_addr, v4(192, 0, 2, 3, 99));
    for c in locals {
        assert_eq!(c.candidate_type, CandidateType::Relayed);
        assert_eq!(c.connection_addr.ip, IpAddress::V4(203, 0, 113, 1));
        assert!(c.connection_addr.port >= 50000 && c.connection_addr.port < 60000);
        assert_eq!(c.priority, 255);
    }

    let mut bad = IceAgent::new(None).with_turn_server(
        "turn.example.org:3478".to_string(),
        Some("u".to_string()),
        Some("p".to_string()),
    );
    let err = bad.gather_relayed_candidates().unwrap_err();
    assert_eq!(err.message(), "Invalid TURN server address 'turn.example.org'");
    assert!(bad.local_candidates().is_empty());
}

#[test]
fn turn_urls_resolve_by_their_form() {
    assert_eq!(resolve_turn_url("10.1.2.3:4").unwrap(), v4(10, 1, 2, 3, 4));
    assert_eq!(resolve_turn_url("10.1.2.3").unwrap(), v4(10, 1, 2, 3, 3478));
    assert_eq!(resolve_turn_url("10.1.2.3:70000").unwrap(), v4(10, 1, 2, 3, 3478));
    assert_eq!(resolve_turn_url("10.1.2.3:+80").unwrap(), v4(10, 1, 2, 3, 80));
    assert!(resolve_turn_url("10.1.2:80").is_err());
    assert!(resolve_turn_url("example.org").is_err());
    assert!(resolve_turn_url("").is_err());
}

#[test]
fn candidate_kinds_have_their_names_and_preferences() {
    let kinds = [
        (CandidateType::Host, 126, "host"),
        (CandidateType::PeerReflexive, 110, "prflx"),
        (CandidateType::ServerReflexive, 100, "srflx"),
        (CandidateType::Relayed, 0, "relay"),
    ];
    for (kind, preference, name) in kinds {
        assert_eq!(kind.type_preference(), preference);
        assert_eq!(kind.name(), name);
        assert_eq!(kind.to_string(), name);
    }
    assert_eq!(TransportType::Udp.lower_name(), "udp");
    assert_eq!(TransportType::Tcp.lower_name(), "tcp");
    assert_eq!(TransportType::Udp.to_string(), "UDP");
    assert_eq!(TransportType::Tcp.to_string(), "TCP");
}

#[test]
fn copies_of_candidates_and_pairs_are_equal_to_them() {
    let local = Candidate::new_server_reflexive(v4(1, 2, 3, 4, 5), v4(192, 168, 1, 1, 6), 2);
    let copy = local.duplicate();
    assert!(copy.same_as(&local));
    assert_eq!(copy.foundation, local.foundation);
    assert_eq!((copy.component_id, copy.priority), (2, local.priority));
    assert_eq!((copy.connection_addr, copy.base_addr), (v4(1, 2, 3, 4, 5), v4(192, 168, 1, 1, 6)));
    assert_eq!(copy.related_addr, Some(v4(192, 168, 1, 1, 6)));

    let mut pair = CandidatePair::new(local, Candidate::new_host(v4(10, 0, 0, 9, 9), 2));
    assert_eq!(pair.state, CandidatePairState::Frozen);
    assert!(!pair.is_pending());
    pair.state = CandidatePairState::Waiting;
    assert!(pair.is_pending());
    pair.state = CandidatePairState::InProgress;
    pair.last_check = Some(12);
    assert!(pair.is_pending());
    let twin = pair.duplicate();
    assert_eq!((twin.priority, twin.state, twin.nominated), (pair.priority, pair.state, false));
    assert_eq!((twin.last_check, twin.round_trip_time), (Some(12), None));
    assert!(twin.local.same_as(&pair.local) && twin.remote.same_as(&pair.remote));
    pair.state = CandidatePairState::Succeeded;
    assert!(!pair.is_pending());
    pair.state = CandidatePairState::Failed;
    assert!(!pair.is_pending());
}

#[test]
fn remote_candidates_are_learned_in_their_order() {
    let mut agent = IceAgent::new(None).with_component(2);
    assert_eq!(agent.component_id(), 2);
    let again = IceAgent::new(None);
    assert_eq!(again.component_id(), 1);
    let _ = (agent.tie_breaker(), again.tie_breaker());
    agent.add_host_candidate(v4(192, 168, 1, 1, 1000));
    assert_eq!(agent.local_candidates()[0].component_id, 2);

    let one = Candidate::new_host(v4(10, 0, 0, 1, 1), 2);
    let two = Candidate::new_server_reflexive(v4(10, 0, 0, 2, 2), v4(10, 0, 0, 1, 1), 2);
    agent.add_remote_candidates(vec![one.duplicate(), two.duplicate(), one.duplicate()]);
    assert_eq!(agent.remote_candidates().len(), 2);
    assert!(agent.remote_candidates()[0].same_as(&one));
    assert!(agent.remote_candidates()[1].same_as(&two));
    let pairs = agent.candidate_pairs();
    assert_eq!(pairs.len(), 2);
    assert!(pairs[0].remote.same_as(&one) && pairs[1].remote.same_as(&two));
    assert!(pairs[0].priority > pairs[1].priority);

    let mut idle = IceAgent::new(None);
    idle.add_remote_candidates(vec![]);
    assert_eq!(idle.state(), ConnectionState::New);
    assert!(idle.remote_candidates().is_empty());
}

#[test]
fn any_two_candidates_pair_the_same_either_way_round() {
    let mut a = Candidate::new_host(v4(192, 168, 1, 1, 1), 1);
    let mut b = Candidate::new_relayed(v4(203, 0, 113, 1, 2), v4(192, 0, 2, 1, 3), 1);
    for (pa, pb, expected) in [
        (0u32, 0u32, 0u64),
        (1, 0, 3),
        (5, 9, (5u64 << 32) + 18 + 1),
        (u32::MAX, 7, (7u64 << 32) + 2 * (u32::MAX as u64) + 1),
        (u32::MAX, u32::MAX - 1, u64::MAX),
        (u32::MAX, u32::MAX, u64::MAX),
    ] {
        a.priority = pa;
        b.priority = pb;
        let one = CandidatePair::new(a.duplicate(), b.duplicate());
        let other = CandidatePair::new(b.duplicate(), a.duplicate());
        assert_eq!(one.priority, expected, "{} {}", pa, pb);
        assert_eq!(one.priority, other.priority);
        for pair in [one, other] {
            assert_eq!(pair.state, CandidatePairState::Frozen);
            assert!(!pair.nominated);
            assert_eq!((pair.last_check, pair.round_trip_time), (None, None));
        }
    }
}
