use agora_core::identity::{Identity, Signature};
use agora_core::room::{
    generate_room_id, hash_password, hash_password_with, parse_room_link, room_id_from,
    verify_password_hash, Room, RoomConfig,
};

#[test]
fn test_room_creation() {
    let room = Room::new("peer123".to_string(), RoomConfig::default_public());
    assert!(!room.id.is_empty());
    assert!(room.id.len() == 16);
    assert!(!room.has_password());
}

#[test]
fn test_room_with_password() {
    let room = Room::new("peer123".to_string(), RoomConfig::private("secret".to_string()));
    assert!(room.has_password());
    assert!(room.verify_password("secret"));
    assert!(!room.verify_password("wrong"));
    assert!(!room.verify_password(""));
}

#[test]
fn test_password_hash_uniqueness() {
    let hash1 = hash_password("same_password");
    let hash2 = hash_password("same_password");
    assert_ne!(hash1, hash2, "Same password should produce different hashes due to random salt");

    assert!(verify_password_hash("same_password", &hash1));
    assert!(verify_password_hash("same_password", &hash2));
}

#[test]
fn test_share_link() {
    let room = Room::new("peer123".to_string(), RoomConfig::default_public());
    let link = room.share_link();
    assert!(link.starts_with("agora://room/"));
}

#[test]
fn test_parse_room_link() {
    let (id, pass) = parse_room_link("agora://room/abc123").unwrap();
    assert_eq!(id, "abc123");
    assert!(pass.is_none());

    let (id, pass) = parse_room_link("agora://room/abc123?p=secret").unwrap();
    assert_eq!(id, "abc123");
    assert_eq!(pass, Some("secret".to_string()));
}

#[test]
fn test_identity_generation() {
    let identity = Identity::generate().unwrap();
    assert!(!identity.peer_id().is_empty());
    assert!(identity.peer_id().starts_with("12D3KooW"));
}

#[test]
fn test_identity_serialization() {
    let identity = Identity::generate().unwrap();
    let bytes = identity.to_bytes();
    let restored = Identity::from_bytes(&bytes).unwrap();
    assert_eq!(identity.peer_id(), restored.peer_id());
}

#[test]
fn test_sign_verify() {
    let identity = Identity::generate().unwrap();
    let message = b"Hello, Agora!";
    let signature = identity.sign(message);
    assert!(identity.verify(message, &signature));
}

#[test]
fn test_display_name() {
    let mut identity = Identity::generate().unwrap();
    assert!(identity.display_name().is_none());
    identity.set_display_name("Alice".to_string());
    assert_eq!(identity.display_name(), Some("Alice"));
}

#[test]
fn room_links_are_read_by_the_letter() {
    assert!(parse_room_link("agora://rooms/abc").is_none());
    assert!(parse_room_link("agora://room").is_none());
    assert!(parse_room_link("").is_none());
    assert_eq!(parse_room_link("agora://room/").unwrap(), ("".to_string(), None));
    assert_eq!(parse_room_link("agora://room/a?x=1").unwrap(), ("a".to_string(), None));
    assert_eq!(parse_room_link("agora://room/a?").unwrap(), ("a".to_string(), None));
    assert_eq!(
        parse_room_link("agora://room/a?p=").unwrap(),
        ("a".to_string(), Some("".to_string()))
    );
    assert_eq!(
        parse_room_link("agora://room/a?p=b?c").unwrap(),
        ("a".to_string(), Some("b?c".to_string()))
    );
    assert_eq!(
        parse_room_link("agora://room/a?p=x%20y%21%40%23%24%25%26%2B%3Dz").unwrap().1,
        Some("x y!@#$%&+=z".to_string())
    );
    assert_eq!(parse_room_link("agora://room/a?p=%2520").unwrap().1, Some("%20".to_string()));
    assert_eq!(parse_room_link("agora://room/a?p=%252B").unwrap().1, Some("%2B".to_string()));
    assert_eq!(parse_room_link("agora://room/a?p=%2526%253D").unwrap().1, Some("%26%3D".to_string()));
    assert_eq!(parse_room_link("agora://room/a?p=%41%2").unwrap().1, Some("%41%2".to_string()));
    assert_eq!(parse_room_link("agora://room/a?p=%2b%2").unwrap().1, Some("%2b%2".to_string()));
}

#[test]
fn rooms_are_made_of_their_configuration() {
    let room = Room::new_with(
        "creator".to_string(),
        RoomConfig { name: Some("n".to_string()), password: Some("pw".to_string()), max_participants: None },
        "0123456789abcdef".to_string(),
        &[7u8; 16],
        1_700_000_000,
    );
    assert_eq!(room.id, "0123456789abcdef");
    assert_eq!(room.name, Some("n".to_string()));
    assert_eq!(room.creator_peer_id, "creator");
    assert_eq!(room.max_participants, 20);
    assert_eq!(room.created_at, 1_700_000_000);
    let stored = room.password_hash.clone().unwrap();
    assert_eq!(stored, hash_password_with("pw", &[7u8; 16]));
    assert!(stored.starts_with("BwcHBwcHBwcHBwcHBwcHBw==:"));
    assert!(room.verify_password("pw"));
    assert!(!room.verify_password("pW"));
    assert_eq!(room.share_link(), "agora://room/0123456789abcdef");
    assert_eq!(room.share_link_with_password("p w"), "agora://room/0123456789abcdef?p=p%20w");
    assert_eq!(
        room.share_link_with_password("100%25 sure"),
        "agora://room/0123456789abcdef?p=100%2525%20sure"
    );
    assert_eq!(
        room.share_link_with_password(" !@#$%&+="),
        "agora://room/0123456789abcdef?p=%20%21%40%23%24%25%26%2B%3D"
    );
    for password in ["secret", "", "p w", "100%25 sure", "%2B", "%", "%%20", "a?b=c&d", "é +ü", "%3D=%26&"] {
        let link = room.share_link_with_password(password);
        assert_eq!(
            parse_room_link(&link),
            Some(("0123456789abcdef".to_string(), Some(password.to_string()))),
            "{}",
            password
        );
    }

    let open = Room::new("c".to_string(), RoomConfig::named("lobby".to_string()));
    assert_eq!(open.name, Some("lobby".to_string()));
    assert!(open.verify_password("anything"));
    assert_eq!(open.share_link_with_password("x"), open.share_link());
    assert_eq!(RoomConfig::default_public().max_participants, Some(20));

    for bad in ["", "a", "a:b:c", "BwcHBwcHBwcHBwcHBwcHBw==", "!!:??", "BwcH:BwcH"] {
        assert!(!verify_password_hash("pw", bad), "{}", bad);
    }
}

#[test]
fn room_ids_are_sixteen_hex_digits() {
    let id = room_id_from(&[0u8; 16], 0);
    assert_eq!(id.len(), 16);
    assert!(id.chars().all(|c| c.is_ascii_digit() || ('a'..='f').contains(&c)));
    assert_eq!(id, room_id_from(&[0u8; 16], 0));
    assert_ne!(id, room_id_from(&[0u8; 16], 1));
    assert_ne!(id, room_id_from(&[1u8; 16], 0));
    assert_eq!(id, "9d908ecfb6b256de");
    assert_eq!(generate_room_id().len(), 16);
}

#[test]
fn identities_are_their_keys() {
    let a = Identity::from_bytes(&[1u8; 32]).unwrap();
    let mut b = Identity::from_bytes(&[1u8; 32]).unwrap();
    b.set_display_name("B".to_string());
    let c = Identity::from_bytes(&[2u8; 32]).unwrap();
    assert_eq!(a.to_bytes(), [1u8; 32]);
    assert_eq!(a.peer_id(), b.peer_id());
    assert_ne!(a.peer_id(), c.peer_id());
    assert_eq!(a.public_key(), b.public_key());
    assert_ne!(a.public_key().to_vec(), vec![1u8; 32]);
    assert_eq!(a.peer_id().len(), 8 + 1 + 32);
    assert!(a.peer_id()[8..].starts_with('b'));
    assert!(a.public_key_base64().starts_with('m'));
    assert_eq!(Identity::from_bytes(&[1u8; 31]).unwrap_err().message(), "Invalid key bytes");
    assert!(Identity::from_bytes(&[1u8; 33]).is_err());

    let s = a.sign(b"msg");
    assert_eq!(s.to_bytes(), a.sign(b"msg").to_bytes());
    assert!(b.verify(b"msg", &s));
    assert!(!c.verify(b"msg", &s));
    assert!(!a.verify(b"other", &s));
    assert!(!a.verify(b"msg", &Signature::from_bytes([0u8; 64])));

    let info = b.to_peer_info();
    assert_eq!(info.peer_id, a.peer_id());
    assert_eq!(info.display_name, Some("B".to_string()));
    assert_eq!(info.public_key, a.public_key_base64());
    let f = info.fingerprint();
    assert_eq!(f.len(), 19);
    assert!(f.chars().all(|ch| ch == ' ' || ch.is_ascii_digit() || ('A'..='F').contains(&ch)));
    assert_eq!(f.split(' ').count(), 4);
}

fn unhex(s: &str) -> Vec<u8> {
    (0..s.len()).step_by(2).map(|i| u8::from_str_radix(&s[i..i + 2], 16).unwrap()).collect()
}

#[test]
fn signatures_are_the_published_ones() {
    let secret = unhex("9d61b19deffd5a60ba844af492ec2cc44449c5697b326919703bac031cae7f60");
    let identity = Identity::from_bytes(&secret).unwrap();
    assert_eq!(
        identity.public_key().to_vec(),
        unhex("d75a980182b10ab7d54bfed3c964073a0ee172f3daa62325af021a68f707511a")
    );
    let signature = identity.sign(b"");
    assert_eq!(
        signature.to_bytes().to_vec(),
        unhex(
            "e5564300c360ac729086e2cc806e828a84877f1eb8e5d974d873e065224901555fb8821590a33bacc61e39701cf9b46bd25bf5f0595bbe24655141438e7a100b"
        )
    );
    assert!(identity.verify(b"", &signature));
    assert!(!identity.verify(b"\0", &signature));
}

#[test]
fn rooms_are_dated_by_the_clock_in_seconds() {
    let room = Room::new("c".to_string(), RoomConfig::default_public());
    assert!(room.created_at > 1_600_000_000);
    assert!(room.created_at < 100_000_000_000);
    assert_eq!(room.id.len(), 16);
    assert!(room.password_hash.is_none());
}

#[test]
fn a_new_room_has_an_id_of_sixteen_hex_digits_and_knows_its_password() {
    for _ in 0..20 {
        let room = Room::new("peer123".to_string(), RoomConfig::private("secret".to_string()));
        assert_eq!(room.id.len(), 16);
        assert!(room.id.chars().all(|c| c.is_ascii_digit() || ('a'..='f').contains(&c)));
        assert!(room.has_password());
        assert!(room.verify_password("secret"));
        assert!(!room.verify_password("wrong"));
        assert!(!room.verify_password(""));
        assert_ne!(room.password_hash.as_deref(), Some("secret"));
        let link = room.share_link_with_password("secret");
        assert_eq!(parse_room_link(&link), Some((room.id.clone(), Some("secret".to_string()))));
    }
}
