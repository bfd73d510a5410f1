use agora_core::crypto::EncryptedMessage;
use agora_core::key_manager::SecureAudioChannel;
use agora_core::protocol::{
    AudioPacket, ConnectionQuality, ControlMessage, ControlMessageType, EncryptedAudioPacket,
    JitterBuffer, ParticipantInfo,
};
use agora_core::SessionKey;

fn samples(value: f32, n: usize) -> Vec<u32> {
    vec![value.to_bits(); n]
}

#[test]
fn test_audio_packet_encode_decode() {
    let packet = AudioPacket::new(1, "peer123".to_string(), samples(0.5, 960));
    let encoded = packet.encode().unwrap();
    let decoded = AudioPacket::decode(&encoded).unwrap();

    assert_eq!(packet.sequence, decoded.sequence);
    assert_eq!(packet.peer_id, decoded.peer_id);
    assert_eq!(packet.frame.len(), decoded.frame.len());
}

#[test]
fn test_control_message_encode_decode() {
    let msg = ControlMessage::join_room("room456".to_string(), "peer123".to_string());
    let encoded = msg.encode().unwrap();
    let decoded = ControlMessage::decode(&encoded).unwrap();

    match decoded.message_type {
        ControlMessageType::JoinRoom { room_id } => {
            assert_eq!(room_id, "room456");
        }
        _ => panic!("Wrong message type"),
    }
}

#[test]
fn test_connection_quality() {
    assert_eq!(ConnectionQuality::from_latency(30), ConnectionQuality::Excellent);
    assert_eq!(ConnectionQuality::from_latency(75), ConnectionQuality::Good);
    assert_eq!(ConnectionQuality::from_latency(150), ConnectionQuality::Fair);
    assert_eq!(ConnectionQuality::from_latency(300), ConnectionQuality::Poor);
}

#[test]
fn protocol_test_jitter_buffer() {
    let mut buffer = JitterBuffer::new(100, 48000);

    let packet = AudioPacket::new(1, "peer1".to_string(), samples(0.5, 960));
    buffer.push(packet);

    assert!(buffer.buffer_depth() > 0);

    let retrieved = buffer.pop();
    assert!(retrieved.is_some());
}

#[test]
fn test_encrypted_audio_packet_encode_decode() {
    let encrypted =
        EncryptedAudioPacket::new(42, "peer789".to_string(), vec![1, 2, 3, 4, 5], [0u8; 12], 1);

    let encoded = encrypted.encode().unwrap();
    let decoded = EncryptedAudioPacket::decode(&encoded).unwrap();

    assert_eq!(encrypted.sequence, decoded.sequence);
    assert_eq!(encrypted.peer_id, decoded.peer_id);
    assert_eq!(encrypted.encrypted_frame, decoded.encrypted_frame);
    assert_eq!(encrypted.nonce, decoded.nonce);
    assert_eq!(encrypted.key_id, decoded.key_id);
}

#[test]
fn test_encrypted_audio_packet_to_encrypted_message() {
    let encrypted = EncryptedAudioPacket::new(
        1,
        "peer".to_string(),
        vec![10, 20, 30],
        [1, 2, 3, 4, 5, 6, 7, 8, 9, 10, 11, 12],
        5,
    );

    let msg = encrypted.to_encrypted_message();

    assert_eq!(msg.nonce, [1, 2, 3, 4, 5, 6, 7, 8, 9, 10, 11, 12]);
    assert_eq!(msg.ciphertext, vec![10, 20, 30]);
}

#[test]
fn test_secure_audio_channel_encrypt_decrypt() {
    let mut channel = SecureAudioChannel::new();
    let key = SessionKey::new([1u8; 32]);
    channel.create_room("test-room", key);

    let packet = AudioPacket::new(1, "peer123".to_string(), samples(0.5, 960));
    let encrypted = channel.encrypt_packet("test-room", &packet).unwrap();

    assert_eq!(encrypted.sequence, packet.sequence);
    assert_eq!(encrypted.peer_id, packet.peer_id);
    assert!(!encrypted.encrypted_frame.is_empty());

    let decrypted = channel.decrypt_packet("test-room", &encrypted).unwrap();
    assert_eq!(decrypted.sequence, packet.sequence);
    assert_eq!(decrypted.peer_id, packet.peer_id);
    assert_eq!(decrypted.frame, packet.frame);
}

#[test]
fn test_secure_audio_channel_key_rotation() {
    let mut channel = SecureAudioChannel::new();
    let key = SessionKey::new([1u8; 32]);
    channel.create_room("test-room", key);

    let packet = AudioPacket::new(1, "peer123".to_string(), samples(0.5, 960));
    let encrypted = channel.encrypt_packet("test-room", &packet).unwrap();
    assert_eq!(encrypted.key_id, 1);

    channel.rotate_key_now("test-room").unwrap();

    let packet2 = AudioPacket::new(2, "peer123".to_string(), samples(0.3, 960));
    let encrypted2 = channel.encrypt_packet("test-room", &packet2).unwrap();
    assert_eq!(encrypted2.key_id, 2);

    let decrypted = channel.decrypt_packet("test-room", &encrypted).unwrap();
    assert_eq!(decrypted.frame, packet.frame);

    let decrypted2 = channel.decrypt_packet("test-room", &encrypted2).unwrap();
    assert_eq!(decrypted2.frame, packet2.frame);
}

#[test]
fn test_secure_audio_channel_multiple_rooms() {
    let mut channel = SecureAudioChannel::new();

    channel.create_room("room1", SessionKey::new([1u8; 32]));
    channel.create_room("room2", SessionKey::new([2u8; 32]));

    let packet1 = AudioPacket::new(1, "peer1".to_string(), samples(0.5, 960));
    let packet2 = AudioPacket::new(1, "peer2".to_string(), samples(0.3, 960));

    let enc1 = channel.encrypt_packet("room1", &packet1).unwrap();
    let enc2 = channel.encrypt_packet("room2", &packet2).unwrap();

    assert_ne!(enc1.encrypted_frame, enc2.encrypted_frame);

    let dec1 = channel.decrypt_packet("room1", &enc1).unwrap();
    let dec2 = channel.decrypt_packet("room2", &enc2).unwrap();

    assert_eq!(dec1.peer_id, "peer1");
    assert_eq!(dec2.peer_id, "peer2");
}

#[test]
fn test_secure_audio_channel_serialization() {
    let mut channel = SecureAudioChannel::new();
    let key = SessionKey::new([1u8; 32]);
    channel.create_room("test-room", key);

    let packet = AudioPacket::new(42, "peer456".to_string(), samples(0.7, 480));
    let encrypted = channel.encrypt_packet("test-room", &packet).unwrap();

    let encoded = encrypted.encode().unwrap();
    let decoded = EncryptedAudioPacket::decode(&encoded).unwrap();

    assert_eq!(encrypted.sequence, decoded.sequence);
    assert_eq!(encrypted.encrypted_frame, decoded.encrypted_frame);
    assert_eq!(encrypted.nonce, decoded.nonce);
    assert_eq!(encrypted.key_id, decoded.key_id);

    let decrypted = channel.decrypt_packet("test-room", &decoded).unwrap();
    assert_eq!(decrypted.frame, packet.frame);
}

#[test]
fn audio_packet_wire_form_is_that_of_the_serializer() {
    let frame: Vec<f32> = vec![0.5, -1.0, 0.0, 3.25];
    let packet =
        AudioPacket::new_at(7, "péer".to_string(), frame.iter().map(|s| s.to_bits()).collect(), 99);
    let reference =
        bincode::serialize(&(7u64, 99u64, "péer".to_string(), frame.clone(), 48000u32, 1u16)).unwrap();
    assert_eq!(packet.encode().unwrap(), reference);

    let back = AudioPacket::decode(&reference).unwrap();
    assert_eq!((back.sequence, back.timestamp, back.sample_rate, back.channels), (7, 99, 48000, 1));
    assert_eq!(back.peer_id, "péer");
    let floats: Vec<f32> = back.frame.iter().map(|b| f32::from_bits(*b)).collect();
    assert_eq!(floats, frame);

    let mut longer = reference.clone();
    longer.push(0xff);
    assert_eq!(AudioPacket::decode(&longer).unwrap().frame, back.frame);
    for cut in 0..reference.len() {
        assert_eq!(
            AudioPacket::decode(&reference[..cut]).unwrap_err().message(),
            "invalid data"
        );
    }
    let mut bad_text = reference.clone();
    bad_text[24] = 0xff;
    assert!(AudioPacket::decode(&bad_text).is_err());
    let mut huge = reference.clone();
    huge[16..24].copy_from_slice(&u64::MAX.to_le_bytes());
    assert!(AudioPacket::decode(&huge).is_err());
}

#[test]
fn encrypted_packet_wire_form_is_that_of_the_serializer() {
    let nonce = [1u8, 2, 3, 4, 5, 6, 7, 8, 9, 10, 11, 12];
    let packet = EncryptedAudioPacket::new_at(5, "p".to_string(), vec![9, 8, 7], nonce, 3, 1234);
    let reference =
        bincode::serialize(&(5u64, 1234u64, "p".to_string(), vec![9u8, 8, 7], nonce, 3u64)).unwrap();
    assert_eq!(packet.encode().unwrap(), reference);
    let back = EncryptedAudioPacket::decode(&reference).unwrap();
    assert_eq!((back.sequence, back.timestamp, back.key_id), (5, 1234, 3));
    assert_eq!(back.nonce, nonce);
    for cut in 0..reference.len() {
        assert!(EncryptedAudioPacket::decode(&reference[..cut]).is_err());
    }
    let from_message = EncryptedAudioPacket::from_encrypted_message(
        1,
        "q".to_string(),
        EncryptedMessage::new(nonce, vec![4, 4]),
        8,
    );
    assert_eq!(from_message.encrypted_frame, vec![4, 4]);
    assert_eq!((from_message.nonce, from_message.key_id), (nonce, 8));
}

#[test]
fn control_message_wire_form_is_that_of_the_serializer() {
    let mut msg = ControlMessage::new_at(
        ControlMessageType::ParticipantList {
            participants: vec![
                ParticipantInfo {
                    peer_id: "a".to_string(),
                    display_name: Some("Alice".to_string()),
                    is_mixer: true,
                    is_muted: false,
                    latency_ms: 42,
                },
                ParticipantInfo {
                    peer_id: "b".to_string(),
                    display_name: None,
                    is_mixer: false,
                    is_muted: true,
                    latency_ms: 7,
                },
            ],
        },
        "me".to_string(),
        77,
    );
    msg.room_id = Some("room".to_string());
    let list = vec![
        ("a".to_string(), Some("Alice".to_string()), true, false, 42u32),
        ("b".to_string(), None::<String>, false, true, 7u32),
    ];
    let reference = bincode::serialize(&(
        4u32,
        list,
        "me".to_string(),
        Some("room".to_string()),
        None::<String>,
        77u64,
    ))
    .unwrap();
    assert_eq!(msg.encode().unwrap(), reference);
    let back = ControlMessage::decode(&reference).unwrap();
    assert_eq!(back.peer_id, "me");
    assert_eq!(back.room_id, Some("room".to_string()));
    assert_eq!(back.display_name, None);
    assert_eq!(back.timestamp, 77);
    match back.message_type {
        ControlMessageType::ParticipantList { participants } => {
            assert_eq!(participants.len(), 2);
            assert_eq!(participants[0].display_name, Some("Alice".to_string()));
            assert!(participants[0].is_mixer && !participants[0].is_muted);
            assert_eq!(participants[1].latency_ms, 7);
        }
        _ => panic!("Wrong message type"),
    }
    for cut in 0..reference.len() {
        assert!(ControlMessage::decode(&reference[..cut]).is_err());
    }

    let kinds: Vec<(ControlMessageType, Vec<u8>)> = vec![
        (
            ControlMessageType::LeaveRoom { room_id: "r".to_string() },
            bincode::serialize(&(1u32, "r".to_string())).unwrap(),
        ),
        (
            ControlMessageType::UpdateInfo { display_name: "n".to_string() },
            bincode::serialize(&(2u32, "n".to_string())).unwrap(),
        ),
        (ControlMessageType::MuteChanged { is_muted: true }, bincode::serialize(&(3u32, true)).unwrap()),
        (ControlMessageType::Ping, bincode::serialize(&5u32).unwrap()),
        (ControlMessageType::Pong, bincode::serialize(&6u32).unwrap()),
    ];
    for (kind, head) in kinds {
        let m = ControlMessage::new_at(kind, "x".to_string(), 1);
        let mut expected = head;
        expected.extend(bincode::serialize(&("x".to_string(), None::<String>, None::<String>, 1u64)).unwrap());
        assert_eq!(m.encode().unwrap(), expected);
        assert_eq!(ControlMessage::decode(&expected).unwrap().encode().unwrap(), expected);
    }
    let mut unknown = bincode::serialize(&7u32).unwrap();
    unknown.extend(bincode::serialize(&("x".to_string(), None::<String>, None::<String>, 1u64)).unwrap());
    assert!(ControlMessage::decode(&unknown).is_err());
    let mut bad_flag = bincode::serialize(&(3u32, true)).unwrap();
    bad_flag[4] = 2;
    bad_flag.extend(bincode::serialize(&("x".to_string(), None::<String>, None::<String>, 1u64)).unwrap());
    assert!(ControlMessage::decode(&bad_flag).is_err());

    let leave = ControlMessage::leave_room("r".to_string(), "p".to_string());
    assert!(matches!(leave.message_type, ControlMessageType::LeaveRoom { .. }));
    let mute = ControlMessage::mute_changed("p".to_string(), true);
    assert!(matches!(mute.message_type, ControlMessageType::MuteChanged { is_muted: true }));
    assert_eq!(mute.peer_id, "p");
}

#[test]
fn connection_quality_changes_at_the_thresholds() {
    assert_eq!(ConnectionQuality::from_latency(0), ConnectionQuality::Excellent);
    assert_eq!(ConnectionQuality::from_latency(50), ConnectionQuality::Excellent);
    assert_eq!(ConnectionQuality::from_latency(51), ConnectionQuality::Good);
    assert_eq!(ConnectionQuality::from_latency(100), ConnectionQuality::Good);
    assert_eq!(ConnectionQuality::from_latency(101), ConnectionQuality::Fair);
    assert_eq!(ConnectionQuality::from_latency(200), ConnectionQuality::Fair);
    assert_eq!(ConnectionQuality::from_latency(201), ConnectionQuality::Poor);
    assert_eq!(ConnectionQuality::Excellent.as_str(), "excellent");
    assert_eq!(ConnectionQuality::Good.as_str(), "good");
    assert_eq!(ConnectionQuality::Fair.as_str(), "fair");
    assert_eq!(ConnectionQuality::Poor.as_str(), "poor");
}

#[test]
fn jitter_buffer_is_first_in_first_out() {
    let sizes = [(0, 48000, 5), (100, 48000, 5), (101, 48000, 6), (1000, 48000, 50), (5000, 48000, 50), (20, 48000, 5), (200, 48000, 10), (100, 96000, 10)];
    for (delay, rate, slots) in sizes {
        let mut b: JitterBuffer<u32> = JitterBuffer::new(delay, rate);
        for k in 0..slots {
            b.push(k);
        }
        assert_eq!(b.buffer_depth(), slots as usize);
        for k in 0..slots {
            assert_eq!(b.pop(), Some(k));
        }
        assert_eq!(b.buffer_depth(), 0);
        assert_eq!(b.pop(), None);
        b.push(100);
        assert_eq!(b.pop(), Some(100));
    }

    let mut b: JitterBuffer<u32> = JitterBuffer::new(100, 48000);
    for k in 0..7 {
        b.push(k);
    }
    assert_eq!(b.buffer_depth(), 7);
    assert_eq!(b.pop(), Some(5));
    assert_eq!(b.pop(), Some(6));
    assert_eq!(b.pop(), Some(2));
    b.clear();
    assert_eq!(b.buffer_depth(), 0);
    assert_eq!(b.pop(), None);
    b.push(9);
    assert_eq!(b.pop(), Some(9));
}

#[test]
fn secure_channel_names_its_failures() {
    let mut channel = SecureAudioChannel::new();
    let packet = AudioPacket::new_at(3, "p".to_string(), vec![1, 2, 3], 5);
    assert_eq!(
        channel.encrypt_packet_at("none", &packet, 0).unwrap_err().message(),
        "Room none not found"
    );
    channel.create_room_at("r", SessionKey::with_expiry_at([4u8; 32], 100, 0), 0);
    let sealed = channel.encrypt_packet_at("r", &packet, 50).unwrap();
    assert_eq!((sealed.sequence, sealed.timestamp, sealed.key_id), (3, 50, 1));
    assert_eq!(sealed.encrypted_frame.len(), packet.encode().unwrap().len() + 16);
    assert_eq!(
        channel.decrypt_packet_at("none", &sealed, 60).unwrap_err().message(),
        "Room none not found"
    );
    let opened = channel.decrypt_packet_at("r", &sealed, 60).unwrap();
    assert_eq!((opened.sequence, opened.timestamp, opened.frame), (3, 5, vec![1, 2, 3]));
    assert_eq!(
        channel.decrypt_packet_at("r", &sealed, 61).unwrap_err().message(),
        "Decryption failed with all keys"
    );
    assert_eq!(
        channel.encrypt_packet_at("r", &packet, 101).unwrap_err().message(),
        "Session key expired"
    );
    assert!(channel.has_room("r"));
    assert_eq!(channel.room_count(), 1);
    assert_eq!(channel.get_current_key_id("r"), Some(1));
    assert_eq!(channel.check_rotation_at(3_600_000).len(), 1);
    assert_eq!(channel.get_current_key_id("r"), Some(2));
    channel.remove_room("r");
    assert!(!channel.has_room("r"));
}

#[test]
fn packets_are_dated_by_the_clock_in_milliseconds() {
    let packet = AudioPacket::new(1, "peer".to_string(), vec![0; 4]);
    assert!(packet.timestamp > 1_600_000_000_000);
    let later = AudioPacket::new(2, "peer".to_string(), vec![0; 4]);
    assert!(later.timestamp >= packet.timestamp);
    let message = ControlMessage::join_room("room".to_string(), "peer".to_string());
    assert!(message.timestamp > 1_600_000_000_000);
}

fn scrambled(seed: &mut u64) -> u64 {
    *seed = seed.wrapping_mul(6364136223846793005).wrapping_add(1442695040888963407);
    *seed >> 33
}

#[test]
fn damaged_packets_are_read_as_the_serializer_reads_them() {
    let audio =
        bincode::serialize(&(7u64, 99u64, "péer".to_string(), vec![1u32, 2, 3], 48000u32, 1u16)).unwrap();
    let sealed = bincode::serialize(&(
        5u64,
        1234u64,
        "p".to_string(),
        vec![9u8, 8, 7],
        [1u8, 2, 3, 4, 5, 6, 7, 8, 9, 10, 11, 12],
        3u64,
    ))
    .unwrap();
    let mut seed = 20u64;
    for round in 0..4000 {
        let mut a = audio.clone();
        let mut s = sealed.clone();
        for _ in 0..1 + round % 3 {
            let at = scrambled(&mut seed) as usize;
            let value = scrambled(&mut seed) as u8;
            let n = a.len();
            a[at % n] = value;
            let n = s.len();
            s[at % n] = value;
        }
        if round % 5 == 0 {
            a.truncate(scrambled(&mut seed) as usize % (audio.len() + 1));
            s.truncate(scrambled(&mut seed) as usize % (sealed.len() + 1));
        }

        let theirs: Result<(u64, u64, String, Vec<u32>, u32, u16), _> = bincode::deserialize(&a);
        match (AudioPacket::decode(&a), theirs) {
            (Ok(mine), Ok(t)) => assert_eq!(
                (mine.sequence, mine.timestamp, mine.peer_id, mine.frame, mine.sample_rate, mine.channels),
                t
            ),
            (Err(_), Err(_)) => {}
            (mine, theirs) => panic!("{:?}: {:?} against {:?}", a, mine.is_ok(), theirs.is_ok()),
        }

        let theirs: Result<(u64, u64, String, Vec<u8>, [u8; 12], u64), _> = bincode::deserialize(&s);
        match (EncryptedAudioPacket::decode(&s), theirs) {
            (Ok(mine), Ok(t)) => assert_eq!(
                (mine.sequence, mine.timestamp, mine.peer_id, mine.encrypted_frame, mine.nonce, mine.key_id),
                t
            ),
            (Err(_), Err(_)) => {}
            (mine, theirs) => panic!("{:?}: {:?} against {:?}", s, mine.is_ok(), theirs.is_ok()),
        }
    }
}
