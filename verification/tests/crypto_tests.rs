use agora_core::crypto::{
    compute_fingerprint, derive_nonce, derive_session_key, derive_session_key_from_shared_secret,
    extract_counter, generate_ephemeral_key, generate_session_key, group_upper, within_horizon,
    EncryptedChannel, EncryptedMessage, KeyExchange, SessionKey,
};
use agora_core::error::Error;
use agora_core::key_manager::SessionKeyManager;
use std::time::{Duration, Instant};

fn wait(d: Duration) {
    let start = Instant::now();
    while start.elapsed() < d {
        std::hint::spin_loop();
    }
}

#[test]
fn test_session_key_expiry() {
    let key = SessionKey::with_expiry([1u8; 32], Duration::from_millis(10));

    assert!(!key.is_expired());
    wait(Duration::from_millis(20));
    assert!(key.is_expired());
}

#[test]
fn test_encrypted_message_roundtrip() {
    let nonce = [1u8; 12];
    let ciphertext = vec![2u8; 32];
    let msg = EncryptedMessage::new(nonce, ciphertext.clone());
    let bytes = msg.to_bytes();
    let restored = EncryptedMessage::from_bytes(&bytes).unwrap();

    assert_eq!(msg.nonce, restored.nonce);
    assert_eq!(msg.ciphertext, restored.ciphertext);
}

#[test]
fn test_encrypt_decrypt_chacha20() {
    let key = SessionKey::new([42u8; 32]);
    let mut channel = EncryptedChannel::new(key);

    let plaintext = b"Hello, Agora!";
    let encrypted = channel.encrypt(plaintext).unwrap();
    let decrypted = channel.decrypt(&encrypted).unwrap();

    assert_eq!(plaintext.to_vec(), decrypted);
}

#[test]
fn test_encrypt_different_ciphertexts() {
    let key = SessionKey::new([42u8; 32]);
    let mut channel = EncryptedChannel::new(key);

    let plaintext = b"Same message";
    let enc1 = channel.encrypt(plaintext).unwrap();
    let enc2 = channel.encrypt(plaintext).unwrap();

    assert_ne!(enc1.ciphertext, enc2.ciphertext);
}

#[test]
fn test_replay_attack_prevention() {
    let key = SessionKey::new([42u8; 32]);
    let mut channel = EncryptedChannel::new(key);

    let plaintext = b"Test message";
    let encrypted = channel.encrypt(plaintext).unwrap();

    channel.decrypt(&encrypted).unwrap();

    assert!(channel.decrypt(&encrypted).is_err());
}

#[test]
fn test_key_rotation() {
    let key1 = SessionKey::new([1u8; 32]);
    let key2 = SessionKey::new([2u8; 32]);

    let mut channel = EncryptedChannel::new(key1);

    let plaintext = b"Before rotation";
    let enc1 = channel.encrypt(plaintext).unwrap();
    channel.decrypt(&enc1).unwrap();

    channel.rotate_key(key2);

    let plaintext2 = b"After rotation";
    let enc2 = channel.encrypt(plaintext2).unwrap();
    let dec2 = channel.decrypt(&enc2).unwrap();
    assert_eq!(plaintext2.to_vec(), dec2);
}

#[test]
fn test_large_message() {
    let key = SessionKey::new([42u8; 32]);
    let mut channel = EncryptedChannel::new(key);

    let plaintext = vec![0u8; 65536];
    let encrypted = channel.encrypt(&plaintext).unwrap();
    let decrypted = channel.decrypt(&encrypted).unwrap();

    assert_eq!(plaintext, decrypted);
}

#[test]
fn test_session_key_manager_create_room() {
    let mut manager = SessionKeyManager::new();
    let key = SessionKey::new([1u8; 32]);

    let key_id = manager.create_room("test-room", key);
    assert_eq!(key_id, 1);
    assert!(manager.has_room("test-room"));
    assert_eq!(manager.room_count(), 1);
}

#[test]
fn test_session_key_manager_encrypt_decrypt() {
    let mut manager = SessionKeyManager::new();
    let key = SessionKey::new([1u8; 32]);
    manager.create_room("test-room", key);

    let plaintext = b"Hello, secure world!";
    let encrypted = manager.encrypt("test-room", plaintext).unwrap();
    let decrypted = manager.decrypt("test-room", &encrypted).unwrap();

    assert_eq!(plaintext.to_vec(), decrypted);
}

#[test]
fn test_session_key_manager_key_rotation() {
    let mut manager = SessionKeyManager::new().with_rotation_interval(Duration::from_millis(50));

    let key = SessionKey::with_expiry([1u8; 32], Duration::from_secs(10));
    manager.create_room("test-room", key);

    let plaintext = b"Before rotation";
    let encrypted = manager.encrypt("test-room", plaintext).unwrap();

    wait(Duration::from_millis(60));

    let events = manager.check_rotation();
    assert_eq!(events.len(), 1);
    assert_eq!(events[0].room_id, "test-room");
    assert_eq!(events[0].new_key_id, 2);

    let decrypted = manager.decrypt("test-room", &encrypted).unwrap();
    assert_eq!(plaintext.to_vec(), decrypted);
}

#[test]
fn test_session_key_manager_manual_rotation() {
    let mut manager = SessionKeyManager::new();
    let key = SessionKey::new([1u8; 32]);
    manager.create_room("test-room", key);

    assert_eq!(manager.get_current_key_id("test-room"), Some(1));

    let event = manager.rotate_key_now("test-room").unwrap();
    assert_eq!(event.new_key_id, 2);
    assert_eq!(event.previous_key_id, Some(1));

    assert_eq!(manager.get_current_key_id("test-room"), Some(2));
}

#[test]
fn test_session_key_manager_multiple_rooms() {
    let mut manager = SessionKeyManager::new();

    manager.create_room("room1", SessionKey::new([1u8; 32]));
    manager.create_room("room2", SessionKey::new([2u8; 32]));
    manager.create_room("room3", SessionKey::new([3u8; 32]));

    assert_eq!(manager.room_count(), 3);

    let enc1 = manager.encrypt("room1", b"msg1").unwrap();
    let enc2 = manager.encrypt("room2", b"msg2").unwrap();
    let enc3 = manager.encrypt("room3", b"msg3").unwrap();

    assert_ne!(enc1.ciphertext, enc2.ciphertext);
    assert_ne!(enc2.ciphertext, enc3.ciphertext);

    manager.remove_room("room2");
    assert_eq!(manager.room_count(), 2);
    assert!(!manager.has_room("room2"));
}

#[test]
fn test_session_key_manager_replay_protection() {
    let mut manager = SessionKeyManager::new();
    let key = SessionKey::new([1u8; 32]);
    manager.create_room("test-room", key);

    let plaintext = b"Secret message";
    let encrypted = manager.encrypt("test-room", plaintext).unwrap();

    manager.decrypt("test-room", &encrypted).unwrap();

    assert!(manager.decrypt("test-room", &encrypted).is_err());
}

#[test]
fn test_session_key_manager_previous_key_decryption() {
    let mut manager = SessionKeyManager::new();
    let key = SessionKey::new([1u8; 32]);
    manager.create_room("test-room", key);

    let plaintext = b"Old key message";
    let encrypted = manager.encrypt("test-room", plaintext).unwrap();

    manager.rotate_key_now("test-room").unwrap();

    let decrypted = manager.decrypt("test-room", &encrypted).unwrap();
    assert_eq!(plaintext.to_vec(), decrypted);
}

#[test]
fn test_time_until_rotation() {
    let mut manager = SessionKeyManager::new().with_rotation_interval(Duration::from_secs(60));

    let key = SessionKey::new([1u8; 32]);
    manager.create_room("test-room", key);

    let time = manager.time_until_rotation("test-room").unwrap();
    assert!(time <= Duration::from_secs(60));
    assert!(time > Duration::from_secs(58));
}

fn reason(e: Error) -> String {
    e.message()
}

#[test]
fn nonce_carries_counter_in_low_eight_bytes() {
    assert_eq!(derive_nonce(0), [0u8; 12]);
    assert_eq!(derive_nonce(1), [0, 0, 0, 0, 1, 0, 0, 0, 0, 0, 0, 0]);
    assert_eq!(
        derive_nonce(0x0102030405060708),
        [0, 0, 0, 0, 8, 7, 6, 5, 4, 3, 2, 1]
    );
    assert_eq!(extract_counter(&derive_nonce(u64::MAX)), u64::MAX);
    assert_eq!(extract_counter(&[9, 9, 9, 9, 2, 1, 0, 0, 0, 0, 0, 0]), 258);
}

#[test]
fn message_wire_form_has_a_minimum_length() {
    assert!(EncryptedMessage::from_bytes(&[0u8; 27]).is_none());
    let m = EncryptedMessage::from_bytes(&[7u8; 28]).unwrap();
    assert_eq!(m.nonce, [7u8; 12]);
    assert_eq!(m.ciphertext, vec![7u8; 16]);
    assert!(EncryptedMessage::from_bytes(&[]).is_none());
}

#[test]
fn channel_at_fixed_instants() {
    let key = SessionKey::with_expiry_at([3u8; 32], 1_000, 50_000);
    assert!(!key.is_expired_at(51_000));
    assert!(key.is_expired_at(51_001));
    assert!(!key.is_expired_at(10));
    let mut channel = EncryptedChannel::new(key);

    let m0 = channel.encrypt_at(b"abc", 50_500).unwrap();
    let m1 = channel.encrypt_at(b"abc", 50_500).unwrap();
    assert_eq!(m0.nonce, derive_nonce(0));
    assert_eq!(m1.nonce, derive_nonce(1));
    assert_eq!(m0.ciphertext.len(), 3 + 16);
    assert_ne!(m0.ciphertext, b"abc".to_vec());

    assert_eq!(channel.decrypt_at(&m0, 50_600).unwrap(), b"abc".to_vec());
    let again = channel.decrypt_at(&m0, 50_700).unwrap_err();
    assert_eq!(reason(again), "Replay attack detected");

    let mut forged = EncryptedMessage::new(m1.nonce, m1.ciphertext.clone());
    forged.ciphertext[0] ^= 1;
    assert_eq!(reason(channel.decrypt_at(&forged, 50_700).unwrap_err()), "Decryption failed: aead::Error");
    assert_eq!(channel.decrypt_at(&m1, 50_700).unwrap(), b"abc".to_vec());

    assert_eq!(reason(channel.encrypt_at(b"late", 51_001).unwrap_err()), "Session key expired");
    assert_eq!(reason(channel.decrypt_at(&m1, 51_001).unwrap_err()), "Session key expired");
}

#[test]
fn replay_horizon_is_five_minutes() {
    assert!(within_horizon(1_000, 1_000));
    assert!(within_horizon(1_000, 300_999));
    assert!(!within_horizon(1_000, 301_000));
    assert!(within_horizon(0, 299_999));
    assert!(!within_horizon(0, 300_000));
}

#[test]
fn old_counters_are_forgotten_after_the_horizon() {
    let key = SessionKey::with_expiry_at([5u8; 32], u64::MAX, 0);
    let mut sender = EncryptedChannel::new(SessionKey::with_expiry_at([5u8; 32], u64::MAX, 0));
    let mut receiver = EncryptedChannel::new(key);
    let m0 = sender.encrypt_at(b"first", 0).unwrap();
    let m1 = sender.encrypt_at(b"second", 0).unwrap();
    receiver.decrypt_at(&m0, 1_000).unwrap();
    assert!(receiver.decrypt_at(&m0, 2_000).is_err());
    receiver.decrypt_at(&m1, 301_000).unwrap();
    assert_eq!(receiver.decrypt_at(&m0, 301_001).unwrap(), b"first".to_vec());
    assert!(receiver.decrypt_at(&m1, 301_001).is_err());
}

#[test]
fn manager_reports_unknown_rooms() {
    let mut manager = SessionKeyManager::new();
    let e = manager.encrypt_at("nowhere", b"x", 5).unwrap_err();
    assert_eq!(reason(e), "Room nowhere not found");
    let e = manager.rotate_key_now_at("nowhere", 5).unwrap_err();
    assert_eq!(reason(e), "Room nowhere not found");
    assert_eq!(manager.get_current_key_id("nowhere"), None);
    assert_eq!(manager.time_until_rotation_at("nowhere", 5), None);
}

#[test]
fn manager_rotates_due_rooms_only() {
    let mut manager = SessionKeyManager::new().with_rotation_interval_ms(100);
    manager.create_room_at("a", SessionKey::new_at([1u8; 32], 0), 0);
    manager.create_room_at("b", SessionKey::new_at([2u8; 32], 0), 50);
    assert_eq!(manager.time_until_rotation_at("a", 40), Some(60));
    assert_eq!(manager.time_until_rotation_at("a", 140), Some(0));

    let pre = manager.encrypt_at("a", b"pre", 10).unwrap();
    assert!(manager.check_rotation_at(99).is_empty());
    let events = manager.check_rotation_at(100);
    assert_eq!(events.len(), 1);
    assert_eq!(events[0].room_id, "a");
    assert_eq!(events[0].new_key_id, 2);
    assert_eq!(events[0].previous_key_id, Some(1));
    assert_eq!(manager.get_current_key_id("a"), Some(2));
    assert_eq!(manager.get_current_key_id("b"), Some(1));
    assert_eq!(manager.time_until_rotation_at("a", 100), Some(100));

    assert_eq!(manager.decrypt_at("a", &pre, 120).unwrap(), b"pre".to_vec());
    let post = manager.encrypt_at("a", b"post", 120).unwrap();
    assert_eq!(post.nonce, derive_nonce(0));
    assert_eq!(manager.decrypt_at("a", &post, 121).unwrap(), b"post".to_vec());

    let events = manager.check_rotation_at(200);
    assert_eq!(events.len(), 2);
    assert_eq!(events[0].room_id, "a");
    assert_eq!(events[0].new_key_id, 3);
    assert_eq!(events[1].room_id, "b");
    assert_eq!(events[1].new_key_id, 2);
}

#[test]
fn test_key_exchange() {
    let mut alice = KeyExchange::new();
    let mut bob = KeyExchange::new();

    let alice_public = *alice.public_key();
    let bob_public = *bob.public_key();

    let alice_shared = alice.compute_shared_secret(&bob_public).unwrap();
    let bob_shared = bob.compute_shared_secret(&alice_public).unwrap();

    assert_eq!(alice_shared.as_bytes(), bob_shared.as_bytes());
}

#[test]
fn test_session_key_from_shared_secret() {
    let mut alice = KeyExchange::new();
    let mut bob = KeyExchange::new();

    let alice_public = *alice.public_key();
    let bob_public = *bob.public_key();

    let alice_shared = alice.compute_shared_secret(&bob_public).unwrap();
    let bob_shared = bob.compute_shared_secret(&alice_public).unwrap();

    let alice_key = derive_session_key_from_shared_secret(&alice_shared, "test-room");
    let bob_key = derive_session_key_from_shared_secret(&bob_shared, "test-room");

    assert_eq!(alice_key.as_bytes(), bob_key.as_bytes());
}

#[test]
fn test_different_rooms_different_keys() {
    let mut alice = KeyExchange::new();
    let bob = KeyExchange::new();

    let bob_public = *bob.public_key();

    let alice_shared = alice.compute_shared_secret(&bob_public).unwrap();

    let key1 = derive_session_key_from_shared_secret(&alice_shared, "room1");
    let key2 = derive_session_key_from_shared_secret(&alice_shared, "room2");

    assert_ne!(key1.as_bytes(), key2.as_bytes());
}

#[test]
fn test_fingerprint() {
    let fp = compute_fingerprint(&[1, 2, 3, 4, 5]);
    assert!(fp.contains(':'));
    assert!(fp.chars().all(|c| c.is_ascii_hexdigit() || c == ':'));
}

#[test]
fn key_exchange_is_good_for_one_secret() {
    let mut a = KeyExchange::from_secret([3u8; 32]);
    let b = KeyExchange::from_secret([3u8; 32]);
    assert_eq!(a.public_key(), b.public_key());
    assert_ne!(a.public_key(), &[3u8; 32]);
    assert_eq!(a.public_key_base64().len(), 44);
    let peer = *KeyExchange::from_secret([4u8; 32]).public_key();
    let first = a.compute_shared_secret(&peer).unwrap();
    assert_ne!(first.as_bytes(), &[0u8; 32]);
    assert_ne!(first.as_bytes(), &[3u8; 32]);
    assert_ne!(first.as_bytes(), &peer);
    let mut other = KeyExchange::from_secret([4u8; 32]);
    let theirs = other.compute_shared_secret(b.public_key()).unwrap();
    assert_eq!(first.as_bytes(), theirs.as_bytes());
    let second = a.compute_shared_secret(&peer).unwrap_err();
    assert_eq!(reason(second), "Key exchange already completed");
    assert_eq!(KeyExchange::default().public_key().len(), 32);
}

#[test]
fn derived_keys_are_functions_of_their_inputs() {
    let key = SessionKey::new_at([9u8; 32], 0);
    assert_eq!(key.derive_for_peer(b"peer"), key.derive_for_peer(b"peer"));
    assert_ne!(key.derive_for_peer(b"peer"), key.derive_for_peer(b"pear"));
    assert_ne!(key.derive_for_peer(b"peer"), [9u8; 32]);
    let a = derive_session_key(&[1u8; 32], &[2u8; 32], "room");
    assert_eq!(a, derive_session_key(&[1u8; 32], &[2u8; 32], "room"));
    assert_ne!(a, derive_session_key(&[2u8; 32], &[1u8; 32], "room"));
    assert_ne!(a, derive_session_key(&[1u8; 32], &[2u8; 32], "Room"));
    assert_ne!(generate_ephemeral_key(), generate_ephemeral_key());
}

#[test]
fn fingerprints_are_upper_case_pairs_between_colons() {
    assert_eq!(compute_fingerprint(&[]), "E3:B0:C4:42:98:FC:1C:14");
    assert_eq!(compute_fingerprint(b"abc"), "BA:78:16:BF:8F:01:CF:EA");
    let grouped: String = group_upper(&"abcdefg".chars().collect::<Vec<char>>(), 3, '-').iter().collect();
    assert_eq!(grouped, "ABC-DEF-G");
    let grouped: String = group_upper(&"ab".chars().collect::<Vec<char>>(), 2, ':').iter().collect();
    assert_eq!(grouped, "AB");
    let grouped: String = group_upper(&[], 2, ':').iter().collect();
    assert_eq!(grouped, "");
}

#[test]
fn rotated_keys_derive_from_their_predecessors() {
    let mut a = SessionKeyManager::new();
    let mut b = SessionKeyManager::new();
    a.create_room_at("r", SessionKey::new_at([1u8; 32], 0), 0);
    b.create_room_at("r", SessionKey::new_at([1u8; 32], 0), 0);
    a.rotate_key_now_at("r", 10).unwrap();
    b.rotate_key_now_at("r", 20).unwrap();
    let sealed = a.encrypt_at("r", b"after", 30).unwrap();
    assert_eq!(b.decrypt_at("r", &sealed, 30).unwrap(), b"after".to_vec());
    let mut c = SessionKeyManager::new();
    c.create_room_at("r", SessionKey::new_at([1u8; 32], 0), 0);
    assert_eq!(reason(c.decrypt_at("r", &sealed, 30).unwrap_err()), "Decryption failed with all keys");
    c.rotate_key_now_at("r", 30).unwrap();
    assert_eq!(c.decrypt_at("r", &sealed, 31).unwrap(), b"after".to_vec());
}

#[test]
fn a_channel_tells_its_key_and_its_peer() {
    let plain = EncryptedChannel::new(SessionKey::new_at([7u8; 32], 1_000));
    assert_eq!(plain.key_bytes(), &[7u8; 32]);
    assert!(plain.peer_public_key().is_none());
    assert!(!plain.is_key_expired_at(0));
    assert!(!plain.is_key_expired_at(3_601_000));
    assert!(plain.is_key_expired_at(3_601_001));

    let named = EncryptedChannel::with_peer_key(SessionKey::new([8u8; 32]), vec![1, 2, 3]);
    assert_eq!(named.key_bytes(), &[8u8; 32]);
    assert_eq!(named.peer_public_key(), Some(&[1u8, 2, 3][..]));
    assert!(!named.is_key_expired());
    let spent = EncryptedChannel::new(SessionKey::with_expiry_at([8u8; 32], 0, 0));
    assert!(spent.is_key_expired());
}

#[test]
fn cleaning_forgets_only_what_is_past_the_horizon() {
    let mut sender = EncryptedChannel::new(SessionKey::with_expiry_at([5u8; 32], u64::MAX, 0));
    let mut receiver = EncryptedChannel::new(SessionKey::with_expiry_at([5u8; 32], u64::MAX, 0));
    let old = sender.encrypt_at(b"old", 0).unwrap();
    let new = sender.encrypt_at(b"new", 0).unwrap();
    receiver.decrypt_at(&old, 1_000).unwrap();
    receiver.decrypt_at(&new, 200_000).unwrap();

    receiver.cleanup_old_counters_at(300_999);
    assert!(receiver.decrypt_at(&old, 300_999).is_err());
    receiver.cleanup_old_counters_at(301_000);
    assert_eq!(receiver.decrypt_at(&old, 301_000).unwrap(), b"old".to_vec());
    assert_eq!(reason(receiver.decrypt_at(&new, 301_000).unwrap_err()), "Replay attack detected");
}

#[test]
fn fresh_session_keys_differ() {
    let a = generate_session_key();
    let b = generate_session_key();
    assert_ne!(a.as_bytes(), b.as_bytes());
    assert!(!a.is_expired());
    assert!(!a.is_expired_at(u64::MAX / 2) || a.is_expired_at(u64::MAX));
    assert_ne!(generate_ephemeral_key(), generate_ephemeral_key());
}

fn unhex(s: &str) -> Vec<u8> {
    (0..s.len()).step_by(2).map(|i| u8::from_str_radix(&s[i..i + 2], 16).unwrap()).collect()
}

#[test]
fn key_agreement_gives_the_published_values() {
    let alice: [u8; 32] =
        unhex("77076d0a7318a57d3c16c17251b26645df4c2f87ebc0992ab177fba51db92c2a").try_into().unwrap();
    let bob: [u8; 32] =
        unhex("5dab087e624a8a4b79e17f8b83800ee66f3bb1292618b6fd1c2f8b27ff88e0eb").try_into().unwrap();
    let mut a = KeyExchange::from_secret(alice);
    let mut b = KeyExchange::from_secret(bob);
    assert_eq!(
        a.public_key().to_vec(),
        unhex("8520f0098930a754748b7ddcb43ef75a0dbf3a0d26381af4eba4a98eaa9b4e6a")
    );
    assert_eq!(
        b.public_key().to_vec(),
        unhex("de9edb7d7b7dc1b4d35b61c2ece435373f8343c85b78674dadfc7e146f882b4f")
    );
    let shared = unhex("4a5d9d5ba4ce2de1728e3bf480350f25e07e21c947d19e3376f09b3c1e161742");
    let bob_public = *b.public_key();
    let alice_public = *a.public_key();
    assert_eq!(a.compute_shared_secret(&bob_public).unwrap().as_bytes().to_vec(), shared);
    assert_eq!(b.compute_shared_secret(&alice_public).unwrap().as_bytes().to_vec(), shared);
}

#[test]
fn spans_of_time_are_taken_in_whole_milliseconds() {
    let key = SessionKey::with_expiry([1u8; 32], Duration::from_micros(2_500_999));
    assert!(!key.is_expired());
    let manager = SessionKeyManager::new().with_rotation_interval(Duration::from_micros(50_999));
    let mut manager = manager;
    manager.create_room_at("r", SessionKey::new_at([1u8; 32], 0), 1_000);
    assert_eq!(manager.time_until_rotation_at("r", 1_000), Some(50));
    assert_eq!(manager.time_until_rotation_at("r", 1_049), Some(1));
    assert_eq!(manager.time_until_rotation_at("r", 1_050), Some(0));
    assert!(manager.check_rotation_at(1_049).is_empty());
    assert_eq!(manager.check_rotation_at(1_050).len(), 1);
    assert_eq!(manager.time_until_rotation("r"), Some(Duration::ZERO));
    assert_eq!(manager.time_until_rotation("none"), None);
}

#[test]
fn two_fresh_exchanges_agree() {
    for _ in 0..10 {
        let mut a = KeyExchange::new();
        let mut b = KeyExchange::default();
        let pa = *a.public_key();
        let pb = *b.public_key();
        let sa = a.compute_shared_secret(&pb).unwrap();
        let sb = b.compute_shared_secret(&pa).unwrap();
        assert_eq!(sa.as_bytes(), sb.as_bytes());
        assert_eq!(
            derive_session_key_from_shared_secret(&sa, "room").as_bytes(),
            derive_session_key_from_shared_secret(&sb, "room").as_bytes()
        );
    }
}
