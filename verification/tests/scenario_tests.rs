use agora_core::addr::{IpAddress, SocketAddress};
use agora_core::crypto::{EncryptedChannel, SessionKey};
use agora_core::ice::{parse_candidate_from_sdp, Candidate, CandidateType, TransportType};
use agora_core::key_manager::SessionKeyManager;
use agora_core::mixer::{MixerManager, TopologyMode};
use std::time::{Duration, Instant};

fn wait(d: Duration) {
    let start = Instant::now();
    while start.elapsed() < d {
        std::hint::spin_loop();
    }
}

#[test]
fn a_message_makes_the_round_trip_in_a_room() {
    let mut manager = SessionKeyManager::new();
    assert_eq!(manager.create_room("abc123", SessionKey::new([1u8; 32])), 1);
    let sealed = manager.encrypt("abc123", b"Hello, secure world!").unwrap();
    assert_eq!(sealed.ciphertext.len(), 20 + 16);
    assert_eq!(manager.decrypt("abc123", &sealed).unwrap(), b"Hello, secure world!".to_vec());
}

#[test]
fn the_previous_key_opens_what_was_sealed_before_a_rotation() {
    let mut manager =
        SessionKeyManager::new().with_rotation_interval(Duration::from_millis(50));
    let key = SessionKey::with_expiry([1u8; 32], Duration::from_secs(10));
    assert_eq!(manager.create_room("room", key), 1);
    let pre = manager.encrypt("room", b"pre").unwrap();
    assert_eq!(manager.get_current_key_id("room"), Some(1));

    wait(Duration::from_millis(60));

    let events = manager.check_rotation();
    assert_eq!(events.len(), 1);
    assert_eq!(events[0].room_id, "room");
    assert_eq!(events[0].new_key_id, 2);
    assert_eq!(events[0].previous_key_id, Some(1));
    assert_eq!(manager.get_current_key_id("room"), Some(2));
    assert_eq!(manager.decrypt("room", &pre).unwrap(), b"pre".to_vec());
}

#[test]
fn a_replayed_message_is_refused() {
    let mut sender = EncryptedChannel::new(SessionKey::new([9u8; 32]));
    let mut receiver = EncryptedChannel::new(SessionKey::new([9u8; 32]));
    let c = sender.encrypt(b"Test").unwrap();
    assert_eq!(receiver.decrypt(&c).unwrap(), b"Test".to_vec());
    let again = receiver.decrypt(&c).unwrap_err();
    assert!(matches!(again, agora_core::error::Error::Crypto(_)));
    assert_eq!(again.message(), "Replay attack detected");
}

#[test]
fn the_sixth_participant_calls_for_a_mixer() {
    let mut manager = MixerManager::new("local".to_string(), None);
    for peer in ["peer_0", "peer_1", "peer_2", "peer_3"] {
        manager.add_participant(peer.to_string());
    }
    assert_eq!(manager.get_topology_mode(), TopologyMode::FullMesh);
    assert_eq!(manager.get_participant_count(), 5);
    assert_eq!(manager.get_current_mixer(), None);

    manager.add_participant("peer_4".to_string());
    assert_eq!(manager.get_participant_count(), 6);
    assert_eq!(manager.get_topology_mode(), TopologyMode::SFU);
    assert!(manager.get_current_mixer().is_some());
    assert!(manager.select_mixer().is_some());
}

#[test]
fn equal_scores_go_to_the_first_name() {
    let manager = MixerManager::new("local".to_string(), None);
    let candidates = vec![
        ("peer_c".to_string(), 900_000),
        ("peer_a".to_string(), 900_000),
        ("peer_b".to_string(), 900_000),
    ];
    assert_eq!(manager.resolve_tie(&candidates), "peer_a");
}

#[test]
fn a_candidate_line_is_read_and_written() {
    let read = parse_candidate_from_sdp("candidate:123 1 UDP 12345 192.168.1.1 1234 typ host").unwrap();
    let addr = SocketAddress::new(IpAddress::V4(192, 168, 1, 1), 1234);
    assert_eq!(read.foundation, "123");
    assert_eq!(read.component_id, 1);
    assert_eq!(read.transport, TransportType::Udp);
    assert_eq!(read.priority, 12345);
    assert_eq!(read.candidate_type, CandidateType::Host);
    assert_eq!(read.connection_addr, addr);

    let fresh = Candidate::new_host(addr, 1);
    let line = fresh.to_sdp();
    assert_eq!(line, "candidate:host-192.168.1.1:1234 1 udp 2113929471 192.168.1.1 1234 typ host");
    let back = parse_candidate_from_sdp(&line).unwrap();
    assert_eq!(back.foundation, fresh.foundation);
    assert_eq!(back.component_id, fresh.component_id);
    assert_eq!(back.transport, fresh.transport);
    assert_eq!(back.priority, fresh.priority);
    assert_eq!(back.candidate_type, fresh.candidate_type);
    assert_eq!(back.connection_addr, fresh.connection_addr);
}
