use agora_core::mixer::{
    MixerConfig, MixerManager, MixerRole, Participant, ParticipantStats, TopologyMode,
};
use agora_core::score::{
    bandwidth_score, duration_score, isqrt, resource_score, stability_score, total_score,
    ScoreWeights,
};
use std::time::{Duration, Instant};

fn wait(d: Duration) {
    let start = Instant::now();
    while start.elapsed() < d {
        std::hint::spin_loop();
    }
}

#[test]
fn test_participant_score_calculation() {
    let mut participant = Participant::new("peer1".to_string());
    participant.stats.bandwidth_bps = 5_000_000;
    participant.stats.latency_ms = 50;
    participant.stats.cpu_usage_percent = 30;
    participant.stats.memory_usage_percent = 40;
    participant.stats.session_duration = 1_800_000;

    let weights = ScoreWeights::default();
    participant.calculate_score(&weights);

    assert!(participant.score > 0);
    assert!(participant.score <= 1_000_000);
    assert_eq!(participant.score, 200_000 + 250_000 + 130_000 + 37_500);
}

#[test]
fn test_topology_mode_switching() {
    let mut manager = MixerManager::new("local".to_string(), None);

    assert_eq!(manager.get_topology_mode(), TopologyMode::FullMesh);

    for i in 0..4 {
        manager.add_participant(format!("peer{}", i));
    }
    assert_eq!(manager.get_participant_count(), 5);
    assert_eq!(manager.get_topology_mode(), TopologyMode::FullMesh);

    manager.add_participant("extra".to_string());
    assert_eq!(manager.get_participant_count(), 6);
    assert_eq!(manager.get_topology_mode(), TopologyMode::SFU);
}

#[test]
fn test_mixer_selection() {
    let mut manager = MixerManager::new("local".to_string(), None);

    for i in 0..6 {
        manager.add_participant(format!("peer{}", i));
    }

    manager.update_local_stats(10_000_000, 10, 20);

    let mixer = manager.select_mixer();
    assert!(mixer.is_some());
    assert_eq!(mixer, Some("local".to_string()));
    assert!(manager.is_mixer());
}

#[test]
fn test_stability_score() {
    let mut stats = ParticipantStats::new();

    stats.update_latency(50);
    stats.update_latency(50);
    stats.update_latency(50);

    let score = stats.get_stability_score();
    assert!(score > 500_000, "Low variance should give high stability score, got {}", score);

    stats.update_latency(500);
    stats.update_latency(1000);
    stats.update_latency(50);

    let score_high_variance = stats.get_stability_score();
    assert!(score_high_variance < score, "High variance should give lower stability score");
}

#[test]
fn test_duration_score() {
    let mut hour = Participant::new("p1".to_string());
    hour.stats.session_duration = 3_600_000;
    let score1 = hour.calculate_duration_score();

    let mut quarter = Participant::new("p2".to_string());
    quarter.stats.session_duration = 900_000;
    let score2 = quarter.calculate_duration_score();

    assert!(score1 > score2);
    assert_eq!(score1, 1_000_000);
    assert_eq!(score2, 62_500);
}

#[test]
fn test_connection_targets_full_mesh() {
    let mut manager = MixerManager::new("local".to_string(), None);
    manager.add_participant("peer1".to_string());
    manager.add_participant("peer2".to_string());

    let targets = manager.get_connection_targets();
    assert_eq!(targets.len(), 2);
    assert!(targets.contains(&"peer1".to_string()));
    assert!(targets.contains(&"peer2".to_string()));
}

#[test]
fn test_mixer_rotation_check() {
    let mut config = MixerConfig::default();
    config.rotation_interval = 10;

    let mut manager = MixerManager::new("local".to_string(), Some(config));

    for i in 0..6 {
        manager.add_participant(format!("peer{}", i));
    }
    manager.select_mixer();

    wait(Duration::from_millis(20));

    assert!(manager.check_rotation());
}

#[test]
fn test_tie_resolution() {
    let manager = MixerManager::new("local".to_string(), None);

    let candidates = vec![
        ("peer_c".to_string(), 900_000),
        ("peer_a".to_string(), 900_000),
        ("peer_b".to_string(), 900_000),
    ];

    let selected = manager.resolve_tie(&candidates);
    assert_eq!(selected, "peer_a");
}

#[test]
fn test_participant_count() {
    let mut manager = MixerManager::new("local".to_string(), None);
    assert_eq!(manager.get_participant_count(), 1);

    manager.add_participant("peer1".to_string());
    assert_eq!(manager.get_participant_count(), 2);

    manager.add_participant("peer2".to_string());
    assert_eq!(manager.get_participant_count(), 3);

    manager.remove_participant("peer1");
    assert_eq!(manager.get_participant_count(), 2);
}

#[test]
fn scores_follow_their_formulas() {
    assert_eq!(bandwidth_score(0), 0);
    assert_eq!(bandwidth_score(2_500_000), 250_000);
    assert_eq!(bandwidth_score(9_999_999), 999_999);
    assert_eq!(bandwidth_score(10_000_000), 1_000_000);
    assert_eq!(bandwidth_score(u64::MAX), 1_000_000);

    assert_eq!(stability_score(0), 1_000_000);
    assert_eq!(stability_score(10_000), 500_000);
    assert_eq!(stability_score(1), 990_099);
    assert_eq!(stability_score(2), 100_000_000_000 / (100_000 + 1_414));
    assert_eq!(stability_score(u64::MAX), stability_score(18_000_000_000_000));
    assert!(stability_score(u64::MAX) > 0);

    assert_eq!(resource_score(0, 0), 1_000_000);
    assert_eq!(resource_score(30, 40), 650_000);
    assert_eq!(resource_score(100, 100), 0);
    assert_eq!(resource_score(250, 0), 500_000);

    assert_eq!(duration_score(0), 0);
    assert_eq!(duration_score(1_800_000), 250_000);
    assert_eq!(duration_score(3_599_999), 999_999);
    assert_eq!(duration_score(3_600_000), 1_000_000);
    assert_eq!(duration_score(u64::MAX), 1_000_000);

    let w = ScoreWeights::default();
    assert_eq!((w.bandwidth, w.stability, w.resources, w.duration), (400_000, 250_000, 200_000, 150_000));
    assert_eq!(total_score(&w, 1_000_000, 1_000_000, 1_000_000, 1_000_000), 1_000_000);
    assert_eq!(total_score(&w, 0, 1_000_000, 1_000_000, 0), 450_000);
    assert_eq!(total_score(&w, 1, 1, 1, 1), 1);
    assert_eq!(total_score(&w, 1, 0, 0, 0), 0);

    for x in [0u64, 1, 2, 3, 4, 15, 16, 17, 1 << 32, (1 << 32) - 1, u64::MAX, 999_999_999_999] {
        let r = isqrt(x) as u128;
        assert!(r * r <= x as u128 && (r + 1) * (r + 1) > x as u128, "{}", x);
    }
}

fn sfu_manager(ids: &[&str]) -> MixerManager {
    let mut config = MixerConfig::default();
    config.full_mesh_threshold = 1;
    let mut manager = MixerManager::new("local".to_string(), Some(config));
    for id in ids {
        manager.add_participant_at(id.to_string(), 0);
    }
    manager
}

fn stats(bandwidth_bps: u64) -> ParticipantStats {
    let mut s = ParticipantStats::new_at(0);
    s.bandwidth_bps = bandwidth_bps;
    s
}

#[test]
fn topology_crosses_exactly_at_the_threshold() {
    for threshold in [0usize, 1, 2, 5, 7] {
        let mut config = MixerConfig::default();
        config.full_mesh_threshold = threshold;
        let mut manager = MixerManager::new("local".to_string(), Some(config));
        for k in 0..9 {
            manager.add_participant_at(format!("p{}", k), k);
            let count = manager.get_participant_count();
            assert_eq!(count, k as usize + 2);
            let expected = if count <= threshold { TopologyMode::FullMesh } else { TopologyMode::SFU };
            assert_eq!(manager.get_topology_mode(), expected);
            assert_eq!(manager.get_current_mixer().is_some(), expected == TopologyMode::SFU);
        }
        for k in 0..9 {
            manager.remove_participant_at(&format!("p{}", k), 100 + k);
            let count = manager.get_participant_count();
            let expected = if count <= threshold { TopologyMode::FullMesh } else { TopologyMode::SFU };
            assert_eq!(manager.get_topology_mode(), expected);
        }
    }
}

#[test]
fn the_clear_winner_is_elected_and_ties_go_to_the_first_name() {
    let mut manager = sfu_manager(&["peer_c", "peer_a", "peer_b"]);
    assert_eq!(manager.get_current_mixer(), Some("local"));
    assert!(manager.is_mixer());
    assert!(manager.get_connection_targets().is_empty());

    manager.update_participant_stats("peer_b", stats(10_000_000));
    assert_eq!(manager.select_mixer_at(5), Some("peer_b".to_string()));
    assert!(!manager.is_mixer());
    assert_eq!(manager.get_connection_targets(), vec!["peer_b".to_string()]);
    let b = manager.get_participant_info("peer_b").unwrap();
    assert_eq!((b.role, b.mixer_start_time, b.score), (MixerRole::Mixer, Some(5), 850_000));
    assert_eq!(manager.get_participant_info("peer_a").unwrap().score, 450_000);
    assert_eq!(manager.get_status_at(25).uptime, Some(20));

    manager.update_participant_stats("peer_c", stats(8_937_500));
    assert_eq!(manager.select_mixer_at(6), Some("peer_b".to_string()));
    assert_eq!(manager.get_participant_info("peer_c").unwrap().score, 807_500);
    manager.update_participant_stats("peer_c", stats(8_937_530));
    assert_eq!(manager.get_participant_info("peer_c").unwrap().score, 807_500);
    assert_eq!(manager.select_mixer_at(7), Some("local".to_string()));
    assert_eq!(manager.get_participant_info("peer_c").unwrap().score, 807_501);
    assert!(manager.is_mixer());
    assert_eq!(manager.get_participant_info("peer_b").unwrap().role, MixerRole::Peer);
    assert_eq!(manager.get_participant_info("peer_b").unwrap().mixer_start_time, None);

    manager.update_participant_stats("unknown", stats(1));
    assert!(manager.get_participant_info("unknown").is_none());

    let mut named = sfu_manager(&["b", "a", "c"]);
    assert_eq!(named.select_mixer_at(1), Some("a".to_string()));
    assert_eq!(named.get_status_at(1).current_mixer, Some("a".to_string()));
    assert!(!named.get_status_at(1).is_local_mixer);
}

#[test]
fn no_mixer_outside_the_forwarding_topology() {
    let mut manager = MixerManager::new("local".to_string(), None);
    manager.add_participant_at("p".to_string(), 0);
    assert_eq!(manager.select_mixer_at(1), None);
    assert_eq!(manager.get_current_mixer(), None);
    assert!(!manager.check_rotation_at(u64::MAX));
    assert_eq!(manager.rotate_mixer_at(2), None);
    let status = manager.get_status();
    assert_eq!((status.topology, status.participant_count, status.uptime), (TopologyMode::FullMesh, 2, None));
}

#[test]
fn rotation_is_due_after_the_interval_and_changes_the_mixer() {
    let mut manager = sfu_manager(&["m", "n"]);
    let mut long = stats(5_000_000);
    long.session_duration = 3_600_000;
    manager.update_participant_stats("m", long);
    manager.update_participant_stats("n", stats(5_000_000));
    assert_eq!(manager.select_mixer_at(1_000), Some("m".to_string()));
    assert!(!manager.check_rotation_at(1_000 + 1_799_999));
    assert!(manager.check_rotation_at(1_000 + 1_800_000));

    manager.update_participant_stats("n", stats(7_000_000));
    assert_eq!(manager.rotate_mixer_at(2_000_000), Some("n".to_string()));
    assert_eq!(manager.get_participant_info("m").unwrap().stats.session_duration, 0);
    assert_eq!(manager.get_participant_info("m").unwrap().role, MixerRole::Peer);
    assert_eq!(manager.get_participant_info("n").unwrap().mixer_start_time, Some(2_000_000));

    manager.remove_participant_at("n", 2_000_001);
    assert_eq!(manager.get_current_mixer(), Some("m"));
    manager.update_local_stats_at(1, 2, 3, 2_000_101);
    assert_eq!(manager.get_status_at(2_000_101).uptime, Some(100));
}

#[test]
fn latency_variance_grows_by_the_square_of_the_change() {
    let mut s = ParticipantStats::new_at(0);
    s.update_latency_at(50, 1);
    assert_eq!((s.latency_ms, s.latency_variance, s.last_updated), (50, 2500, 1));
    s.update_latency_at(20, 2);
    assert_eq!((s.latency_ms, s.latency_variance), (20, 3400));
    s.update_latency_at(20, 3);
    assert_eq!(s.latency_variance, 3400);
    s.latency_variance = u64::MAX - 1;
    s.update_latency_at(30, 4);
    assert_eq!(s.latency_variance, u64::MAX);
    let mut wide = ParticipantStats::new_at(0);
    wide.update_latency_at(u32::MAX, 1);
    assert_eq!(wide.latency_variance, (u32::MAX as u64) * (u32::MAX as u64));
}

#[test]
fn a_participant_is_scored_part_by_part() {
    let mut participant = Participant::new_at("peer".to_string(), 0);
    participant.stats.bandwidth_bps = 2_500_000;
    participant.stats.latency_variance = 10_000;
    participant.stats.cpu_usage_percent = 30;
    participant.stats.memory_usage_percent = 40;
    participant.stats.session_duration = 1_800_000;
    assert_eq!(participant.calculate_bandwidth_score(), 250_000);
    assert_eq!(participant.stats.get_stability_score(), 500_000);
    assert_eq!(participant.calculate_resource_score(), 650_000);
    assert_eq!(participant.calculate_duration_score(), 250_000);
    let weights = ScoreWeights::default();
    assert_eq!(participant.stats.compute_score(&weights), 100_000 + 125_000 + 130_000 + 37_500);
    assert_eq!(participant.score, 0);
    assert_eq!(participant.calculate_score(&weights), 392_500);
    assert_eq!(participant.score, 392_500);
}

#[test]
fn rotation_by_the_clock_elects_again() {
    let mut manager = sfu_manager(&["m", "n"]);
    manager.update_participant_stats("m", stats(9_000_000));
    assert_eq!(manager.select_mixer(), Some("m".to_string()));
    assert!(!manager.check_rotation());
    manager.update_participant_stats("n", stats(9_500_000));
    manager.update_participant_stats("m", stats(1_000_000));
    assert_eq!(manager.rotate_mixer(), Some("n".to_string()));
    assert_eq!(manager.get_current_mixer(), Some("n"));
    assert_eq!(manager.get_participant_info("m").unwrap().role, MixerRole::Peer);
    assert_eq!(manager.get_participant_info("m").unwrap().stats.session_duration, 0);

    let members = manager.get_participants();
    assert_eq!(members.len(), 2);
    assert_eq!(members.key_at(0), "m");
    assert_eq!(members.key_at(1), "n");
    assert!(!members.contains_key("local"));
    assert_eq!(members.get("n").unwrap().role, MixerRole::Mixer);
}

#[test]
fn weights_beyond_one_whole_are_taken_as_they_are() {
    let double = ScoreWeights { bandwidth: 2_000_000, stability: 0, resources: 0, duration: 0 };
    assert_eq!(total_score(&double, 1_000_000, 1_000_000, 1_000_000, 1_000_000), 2_000_000);
    assert_eq!(total_score(&double, 250_000, 0, 0, 0), 500_000);
    let most = ScoreWeights { bandwidth: u64::MAX, stability: 0, resources: 0, duration: 0 };
    assert_eq!(total_score(&most, 1_000_000, 0, 0, 0), u64::MAX);
    assert_eq!(total_score(&most, 500_000, 0, 0, 0), u64::MAX / 2);
    let beyond = ScoreWeights { bandwidth: u64::MAX, stability: u64::MAX, resources: 1, duration: 0 };
    assert_eq!(total_score(&beyond, 1_000_000, 1_000_000, 1_000_000, 0), u64::MAX);
    assert_eq!(total_score(&beyond, 0, 0, 1_000_000, 0), 1);

    let mut config = MixerConfig::default();
    config.full_mesh_threshold = 1;
    config.score_weights = ScoreWeights { bandwidth: 3_000_000, stability: 0, resources: 0, duration: 0 };
    let mut manager = MixerManager::new("local".to_string(), Some(config));
    manager.add_participant_at("a".to_string(), 0);
    manager.add_participant_at("b".to_string(), 0);
    manager.update_participant_stats("b", stats(10_000_000));
    assert_eq!(manager.select_mixer_at(1), Some("b".to_string()));
    assert_eq!(manager.get_participant_info("b").unwrap().score, 3_000_000);
    assert_eq!(manager.get_participant_info("a").unwrap().score, 0);
}
