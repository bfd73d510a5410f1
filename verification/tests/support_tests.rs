use agora_core::aec::{EchoBuffers, AEC_FILTER_LENGTH, AEC_FRAME_SIZE};
use agora_core::string_map::StringMap;
use agora_core::text::{
    ascii_lower, chars_of, copy_range, eq_ignoring_case, find_from, is_digit, is_space, lex_less,
    parse_unsigned, push_decimal, same_chars, split, split_words, starts_with, str_eq,
};
use agora_core::wire::{
    put_bool, put_bytes, put_opt_str, put_str, put_u16, put_u32, put_u64, put_words, Reader,
};

fn chars(s: &str) -> Vec<char> {
    s.chars().collect()
}

fn bits(x: f32) -> u32 {
    x.to_bits()
}

#[test]
fn test_push_samples() {
    let mut aec = EchoBuffers::new(AEC_FILTER_LENGTH, AEC_FRAME_SIZE);

    let far_end = vec![bits(0.5); AEC_FRAME_SIZE];
    let near_end = vec![bits(0.3); AEC_FRAME_SIZE];

    aec.push_far_end(&far_end);
    aec.push_near_end(&near_end);

    assert!(!aec.far_end().is_empty());
    assert!(!aec.near_end().is_empty());
    assert_eq!(aec.far_end(), &far_end[..]);
    assert_eq!(aec.near_end(), &near_end[..]);
}

#[test]
fn test_process_insufficient_data() {
    let mut aec = EchoBuffers::new(AEC_FILTER_LENGTH, AEC_FRAME_SIZE);

    assert!(!aec.is_ready());
    let result = aec.begin_frame();
    assert!(result.is_none());
}

#[test]
fn test_reset() {
    let mut aec = EchoBuffers::new(AEC_FILTER_LENGTH, AEC_FRAME_SIZE);

    aec.push_far_end(&vec![bits(0.5); 1000]);
    aec.push_near_end(&vec![bits(0.3); 500]);

    aec.reset();

    assert!(aec.far_end().is_empty());
    assert!(aec.near_end().is_empty());
    assert_eq!(aec.frames_processed(), 0);
}

#[test]
fn echo_rings_keep_the_newest_samples() {
    let mut rings = EchoBuffers::new(2, 3);
    let far: Vec<u32> = (1..=10).collect();
    rings.push_far_end(&far);
    assert_eq!(rings.far_end(), &[3, 4, 5, 6, 7, 8, 9, 10]);
    let near: Vec<u32> = (101..=105).collect();
    rings.push_near_end(&near);
    assert_eq!(rings.near_end(), &[102, 103, 104, 105]);
    rings.push_near_end(&[106]);
    assert_eq!(rings.near_end(), &[103, 104, 105, 106]);
}

#[test]
fn echo_frames_leave_oldest_first() {
    let mut rings = EchoBuffers::new(2, 3);
    rings.push_near_end(&[1, 2, 3, 4]);
    rings.push_far_end(&[11, 12, 13, 14]);
    assert!(!rings.is_ready());
    assert_eq!(rings.begin_frame(), None);
    assert_eq!(rings.near_end(), &[1, 2, 3, 4]);

    rings.push_far_end(&[15, 16]);
    assert!(rings.is_ready());
    assert_eq!(rings.begin_frame(), Some((vec![1, 2, 3], 1)));
    assert_eq!(rings.near_end(), &[4]);
    assert_eq!(rings.far_end(), &[11, 12, 13, 14, 15, 16]);
    rings.finish_frame();
    assert_eq!(rings.far_end(), &[14, 15, 16]);
    assert_eq!(rings.frames_processed(), 1);

    assert!(!rings.is_ready());
    rings.finish_frame();
    assert_eq!(rings.far_end(), &[] as &[u32]);
    assert_eq!(rings.frames_processed(), 2);
    rings.push_far_end(&[1, 2]);
    rings.finish_frame();
    assert!(rings.far_end().is_empty());
    assert_eq!(rings.frames_processed(), 3);
}

#[test]
fn string_map_binds_each_key_once() {
    let mut m: StringMap<u32> = StringMap::new();
    assert_eq!(m.len(), 0);
    assert!(!m.contains_key("a"));
    assert_eq!(m.get("a"), None);
    assert_eq!(m.remove("a"), None);

    m.insert("a".to_string(), 1);
    m.insert("b".to_string(), 2);
    m.insert("c".to_string(), 3);
    assert_eq!(m.len(), 3);
    assert_eq!(m.position("b"), Some(1));
    assert_eq!(m.position("z"), None);
    assert_eq!(m.get("c"), Some(&3));

    m.insert("b".to_string(), 20);
    assert_eq!(m.len(), 3);
    assert_eq!(m.position("b"), Some(1));
    assert_eq!(m.get("b"), Some(&20));
    assert_eq!(m.key_at(0), "a");
    assert_eq!(*m.value_at(2), 3);

    *m.value_mut(0) += 5;
    assert_eq!(m.get("a"), Some(&6));

    assert_eq!(m.remove("a"), Some(6));
    assert_eq!(m.len(), 2);
    assert!(!m.contains_key("a"));
    assert_eq!(m.key_at(0), "b");
    assert_eq!(m.key_at(1), "c");
    assert_eq!(m.remove("a"), None);
    assert!(m.contains_key("c"));
    assert!(!m.contains_key("C"));
}

#[test]
fn texts_are_equal_when_their_characters_are() {
    assert_eq!(chars_of("añ€𝄞"), vec!['a', 'ñ', '€', '𝄞']);
    assert_eq!(chars_of(""), Vec::<char>::new());
    assert!(str_eq("", ""));
    assert!(str_eq("añ€", "añ€"));
    assert!(!str_eq("añ€", "an€"));
    assert!(!str_eq("a", "ab"));
    assert!(!str_eq("ab", "a"));
    assert!(!str_eq("A", "a"));
    assert!(same_chars(&chars("abc"), &chars("abc")));
    assert!(!same_chars(&chars("abc"), &chars("abd")));
    assert!(!same_chars(&chars("abc"), &chars("ab")));
    assert!(same_chars(&[], &[]));
}

#[test]
fn numbers_are_written_and_read_in_decimal() {
    let mut out = chars("n=");
    push_decimal(&mut out, 0);
    push_decimal(&mut out, 7);
    push_decimal(&mut out, 4_294_967_296);
    push_decimal(&mut out, u64::MAX);
    assert_eq!(out.iter().collect::<String>(), "n=07429496729618446744073709551615");

    assert_eq!(parse_unsigned(&chars("0"), 255), Some(0));
    assert_eq!(parse_unsigned(&chars("255"), 255), Some(255));
    assert_eq!(parse_unsigned(&chars("256"), 255), None);
    assert_eq!(parse_unsigned(&chars("007"), 255), Some(7));
    assert_eq!(parse_unsigned(&chars("+7"), 255), Some(7));
    assert_eq!(parse_unsigned(&chars("-7"), 255), None);
    assert_eq!(parse_unsigned(&chars(""), 255), None);
    assert_eq!(parse_unsigned(&chars("+"), 255), None);
    assert_eq!(parse_unsigned(&chars("1 "), 255), None);
    assert_eq!(parse_unsigned(&chars("18446744073709551615"), u64::MAX), Some(u64::MAX));
    assert_eq!(parse_unsigned(&chars("18446744073709551616"), u64::MAX), None);
    assert_eq!(parse_unsigned(&chars("99999999999999999999999"), u64::MAX), None);

    assert!(is_digit('0') && is_digit('9'));
    assert!(!is_digit('a') && !is_digit('/') && !is_digit(':') && !is_digit('٣'));
}

#[test]
fn text_is_searched_and_cut() {
    let s = chars("a:b::c");
    assert_eq!(find_from(&s, ':', 0), 1);
    assert_eq!(find_from(&s, ':', 2), 3);
    assert_eq!(find_from(&s, ':', 5), 6);
    assert_eq!(find_from(&s, ':', 6), 6);
    assert_eq!(find_from(&s, 'z', 0), 6);
    assert_eq!(copy_range(&s, 2, 5), chars("b::"));
    assert_eq!(copy_range(&s, 3, 3), chars(""));

    assert_eq!(split(&s, ':'), vec![chars("a"), chars("b"), chars(""), chars("c")]);
    assert_eq!(split(&chars(""), ':'), vec![chars("")]);
    assert_eq!(split(&chars(":"), ':'), vec![chars(""), chars("")]);
    assert_eq!(split(&chars("abc"), ':'), vec![chars("abc")]);

    assert_eq!(
        split_words(&chars("  one\ttwo \u{a0} three\n")),
        vec![chars("one"), chars("two"), chars("three")]
    );
    assert_eq!(split_words(&chars(" \t ")), Vec::<Vec<char>>::new());
    assert_eq!(split_words(&chars("")), Vec::<Vec<char>>::new());
    for c in ['\t', '\n', '\u{b}', '\u{c}', '\r', ' ', '\u{85}', '\u{a0}', '\u{1680}', '\u{2000}',
        '\u{200a}', '\u{2028}', '\u{2029}', '\u{202f}', '\u{205f}', '\u{3000}']
    {
        assert!(is_space(c), "{:?}", c);
        assert!(c.is_whitespace());
    }
    for c in ['a', '0', '\u{200b}', '\u{8}', '\u{e}', '\u{1f}', '!', '\u{180e}', '\u{feff}'] {
        assert!(!is_space(c), "{:?}", c);
        assert!(!c.is_whitespace());
    }
}

#[test]
fn text_is_compared() {
    assert_eq!(ascii_lower('A'), 'a');
    assert_eq!(ascii_lower('Z'), 'z');
    assert_eq!(ascii_lower('a'), 'a');
    assert_eq!(ascii_lower('@'), '@');
    assert_eq!(ascii_lower('['), '[');
    assert_eq!(ascii_lower('É'), 'É');
    assert!(eq_ignoring_case(&chars("UdP"), &chars("udp")));
    assert!(eq_ignoring_case(&chars("udp"), &chars("udp")));
    assert!(!eq_ignoring_case(&chars("udp4"), &chars("udp")));
    assert!(!eq_ignoring_case(&chars("tcp"), &chars("udp")));

    assert!(starts_with(&chars("agora://x"), &chars("agora://")));
    assert!(starts_with(&chars("abc"), &chars("")));
    assert!(!starts_with(&chars("ab"), &chars("abc")));
    assert!(!starts_with(&chars("xbc"), &chars("ab")));

    assert!(lex_less(&chars("a"), &chars("b")));
    assert!(lex_less(&chars("a"), &chars("ab")));
    assert!(lex_less(&chars(""), &chars("a")));
    assert!(lex_less(&chars("B"), &chars("a")));
    assert!(lex_less(&chars("peer10"), &chars("peer2")));
    assert!(!lex_less(&chars("b"), &chars("a")));
    assert!(!lex_less(&chars("a"), &chars("a")));
    assert!(!lex_less(&chars(""), &chars("")));
    for (a, b) in [("alice", "bob"), ("z", "é"), ("ab", "a"), ("", "x"), ("same", "same")] {
        assert_eq!(lex_less(&chars(a), &chars(b)), a < b, "{} {}", a, b);
    }
}

#[test]
fn values_are_written_little_endian_with_their_lengths() {
    let mut out = Vec::new();
    put_u64(&mut out, 0x0102_0304_0506_0708);
    put_u32(&mut out, 0x0a0b_0c0d);
    put_u16(&mut out, 0x0e0f);
    put_bool(&mut out, true);
    put_bool(&mut out, false);
    assert_eq!(out, vec![8, 7, 6, 5, 4, 3, 2, 1, 0x0d, 0x0c, 0x0b, 0x0a, 0x0f, 0x0e, 1, 0]);

    let mut out = Vec::new();
    put_bytes(&mut out, &[9, 8]);
    assert_eq!(out, vec![2, 0, 0, 0, 0, 0, 0, 0, 9, 8]);
    let mut out = vec![0xff];
    put_str(&mut out, "hé");
    assert_eq!(out, vec![0xff, 3, 0, 0, 0, 0, 0, 0, 0, b'h', 0xc3, 0xa9]);
    let mut out = Vec::new();
    put_opt_str(&mut out, &None);
    put_opt_str(&mut out, &Some("a".to_string()));
    assert_eq!(out, vec![0, 1, 1, 0, 0, 0, 0, 0, 0, 0, b'a']);
    let mut out = Vec::new();
    put_words(&mut out, &[1, 0x0200_0000]);
    assert_eq!(out, vec![2, 0, 0, 0, 0, 0, 0, 0, 1, 0, 0, 0, 0, 0, 0, 2]);
}

#[test]
fn a_reader_takes_what_was_written() {
    let mut out = Vec::new();
    put_u64(&mut out, u64::MAX - 1);
    put_u32(&mut out, 77);
    put_u16(&mut out, 515);
    put_bool(&mut out, true);
    put_bytes(&mut out, &[1, 2, 3]);
    put_str(&mut out, "room");
    put_opt_str(&mut out, &Some("x".to_string()));
    put_opt_str(&mut out, &None);
    put_words(&mut out, &[5, 6]);
    out.extend_from_slice(&[0xaa, 0xbb]);

    let mut r = Reader::new(&out);
    assert_eq!(r.u64(), Some(u64::MAX - 1));
    assert_eq!(r.u32(), Some(77));
    assert_eq!(r.u16(), Some(515));
    assert_eq!(r.bool(), Some(true));
    assert_eq!(r.bytes(), Some(vec![1, 2, 3]));
    assert_eq!(r.string(), Some("room".to_string()));
    assert_eq!(r.opt_string(), Some(Some("x".to_string())));
    assert_eq!(r.opt_string(), Some(None));
    assert_eq!(r.words(), Some(vec![5, 6]));
    assert_eq!(r.fixed(3), None);
    assert_eq!(r.fixed(2), Some(&[0xaa, 0xbb][..]));
    assert_eq!(r.fixed(0), Some(&[][..]));
    assert_eq!(r.u16(), None);
    assert_eq!(r.bool(), None);
}

#[test]
fn a_reader_refuses_what_is_malformed() {
    assert_eq!(Reader::new(&[1, 2, 3]).u32(), None);
    assert_eq!(Reader::new(&[2]).bool(), None);
    assert_eq!(Reader::new(&[2]).opt_string(), None);
    assert_eq!(Reader::new(&[1, 1, 0, 0, 0, 0, 0, 0, 0]).opt_string(), None);
    assert_eq!(Reader::new(&[3, 0, 0, 0, 0, 0, 0, 0, 1, 2]).bytes(), None);
    assert_eq!(Reader::new(&[0xff; 8]).bytes(), None);
    assert_eq!(Reader::new(&[1, 0, 0, 0, 0, 0, 0, 0, 0xff]).string(), None);
    assert_eq!(Reader::new(&[1, 0, 0, 0, 0, 0, 0, 0, 1, 2, 3]).words(), None);
    assert_eq!(Reader::new(&[0xff; 8]).words(), None);
    assert_eq!(Reader::new(&[0, 0, 0, 0, 0, 0, 0, 0]).words(), Some(vec![]));
}
