use agora_core::stun_client::{binding_request, parse_binding_response};
use stun::agent::TransactionId;
use stun::message::{Getter, Message, BINDING_REQUEST, BINDING_SUCCESS};
use stun::xoraddr::XorMappedAddress;

const TID: [u8; 12] = [0xde, 0xad, 0xbe, 0xef, 1, 2, 3, 4, 5, 6, 7, 8];

#[test]
fn binding_requests_are_those_of_the_stun_crate() {
    for tid in [TID, [0u8; 12], [0xff; 12]] {
        let mut theirs = Message::new();
        theirs.build(&[Box::new(BINDING_REQUEST), Box::new(TransactionId(tid))]).unwrap();
        assert_eq!(binding_request(&tid), theirs.raw);
    }
}

#[test]
fn binding_responses_are_read_as_the_stun_crate_reads_them() {
    let cases = [
        ("192.0.2.1", 32853u16),
        ("0.0.0.0", 0),
        ("255.255.255.255", 65535),
        ("33.18.164.66", 8466),
        ("2001:db8:1234:5678:11:2233:4455:6677", 32853),
        ("::", 1),
        ("::1", 65535),
        ("fe80::1", 3478),
    ];
    for (ip, port) in cases {
        let mut written = Message::new();
        written
            .build(&[
                Box::new(BINDING_SUCCESS),
                Box::new(TransactionId(TID)),
                Box::new(XorMappedAddress { ip: ip.parse().unwrap(), port }),
            ])
            .unwrap();

        let mut read = Message::new();
        read.raw = written.raw.clone();
        read.decode().unwrap();
        let mut theirs = XorMappedAddress::default();
        theirs.get_from(&read).unwrap();

        let mine = parse_binding_response(&written.raw).unwrap();
        assert_eq!(mine.ip.to_text(), theirs.ip.to_string(), "{}", ip);
        assert_eq!(mine.port, theirs.port, "{}", ip);
        assert_eq!(mine.ip.to_text(), ip);
        assert_eq!(mine.port, port);
    }
}

#[test]
fn what_the_stun_crate_refuses_is_refused() {
    let mut request = Message::new();
    request.build(&[Box::new(BINDING_REQUEST), Box::new(TransactionId(TID))]).unwrap();
    assert_eq!(
        parse_binding_response(&request.raw).unwrap_err().message(),
        "Invalid STUN response type"
    );

    let mut bare = Message::new();
    bare.build(&[Box::new(BINDING_SUCCESS), Box::new(TransactionId(TID))]).unwrap();
    let mut read = Message::new();
    read.raw = bare.raw.clone();
    read.decode().unwrap();
    assert!(XorMappedAddress::default().get_from(&read).is_err());
    assert!(parse_binding_response(&bare.raw).is_err());

    for cut in [0usize, 1, 19] {
        let mut read = Message::new();
        read.raw = bare.raw[..cut].to_vec();
        assert!(read.decode().is_err());
        assert!(parse_binding_response(&bare.raw[..cut]).is_err());
    }
}

fn as_std_reads(text: &str) -> Option<String> {
    let mut holder = XorMappedAddress::default();
    match text.parse() {
        Ok(ip) => {
            holder.ip = ip;
            Some(holder.ip.to_string())
        }
        Err(_) => None,
    }
}

fn as_the_library_reads(text: &str) -> Option<String> {
    text.parse::<agora_core::addr::IpAddress>().ok().map(|ip| ip.to_text())
}

fn scrambled(seed: &mut u64) -> u64 {
    *seed = seed.wrapping_mul(6364136223846793005).wrapping_add(1442695040888963407);
    *seed >> 33
}

#[test]
fn addresses_are_read_and_written_as_std_does() {
    let chosen = [
        "0.0.0.0", "255.255.255.255", "1.2.3.4", "01.2.3.4", "1.2.3", "1.2.3.4.5", "256.1.1.1",
        "1..2.3", " 1.2.3.4", "1.2.3.4 ", "+1.2.3.4", "1.2.3.-4", "", ".", "::", "::1", "1::",
        ":::", "::1::", "1:2:3:4:5:6:7:8", "1:2:3:4:5:6:7", "1:2:3:4:5:6:7:8:9", "1:2:3:4:5:6:7::",
        "::2:3:4:5:6:7:8", "1::3:4:5:6:7:8", "1:2:3:4::6:7:8", "1:2:3:4:5:6:7:8::", "fe80::1",
        "FE80::A", "2001:db8::", "2001:DB8:0:0:0:0:0:1", "::ffff:1.2.3.4", "::ffff:0102:0304",
        "::1.2.3.4", "64:ff9b::192.0.2.33", "1:2:3:4:5:6:1.2.3.4", "1:2:3:4:5:1.2.3.4",
        "1:2:3:4:5:6:7:1.2.3.4", "::1.2.3", "::1.2.3.256", "1.2.3.4::", "12345::", "g::", "1:::2",
        "0:0:0:0:0:0:0:0", "0:0:1:0:0:0:0:0", "1:0:0:2:0:0:0:3", "0:1:0:0:2:0:0:0", "::0.0.0.1",
        "::0.1.0.0", "::ffff:0:1", "0001:0002::", "00001::", "1::2::3", "::%eth0", "[::1]",
    ];
    for text in chosen {
        assert_eq!(as_the_library_reads(text), as_std_reads(text), "{:?}", text);
    }

    let alphabet = ['0', '1', '2', '5', '9', 'a', 'f', 'F', ':', ':', ':', '.', '.'];
    let mut seed = 7u64;
    for _ in 0..20000 {
        let len = 1 + scrambled(&mut seed) as usize % 18;
        let text: String =
            (0..len).map(|_| alphabet[scrambled(&mut seed) as usize % alphabet.len()]).collect();
        assert_eq!(as_the_library_reads(&text), as_std_reads(&text), "{:?}", text);
    }
    for _ in 0..5000 {
        let groups: Vec<String> = (0..8)
            .map(|_| match scrambled(&mut seed) % 3 {
                0 => "0".to_string(),
                1 => format!("{:x}", scrambled(&mut seed) % 0x10000),
                _ => format!("{:x}", scrambled(&mut seed) % 4),
            })
            .collect();
        let text = groups.join(":");
        assert_eq!(as_the_library_reads(&text), as_std_reads(&text), "{:?}", text);
    }
    for _ in 0..2000 {
        let text = format!(
            "{}.{}.{}.{}",
            scrambled(&mut seed) % 300,
            scrambled(&mut seed) % 256,
            scrambled(&mut seed) % 256,
            scrambled(&mut seed) % 256
        );
        assert_eq!(as_the_library_reads(&text), as_std_reads(&text), "{:?}", text);
    }
}
