//! IP and socket addresses as plain values, with their text forms read and
//! written to the letter.

use crate::text::{
    all_digits, chars_of, decimal, digits_value, fields, first_index, parse_unsigned, push_decimal, split,
    string_of,
};
use vstd::prelude::*;

verus! {

/// An IP address as plain numbers: four octets, or eight 16-bit groups.
#[derive(Debug, Clone, Copy, PartialEq, Eq, Hash, Structural)]
pub enum IpAddress {
    V4(u8, u8, u8, u8),
    V6(u16, u16, u16, u16, u16, u16, u16, u16),
}

/// An IP address and a port.
#[derive(Debug, Clone, Copy, PartialEq, Eq, Hash, Structural)]
pub struct SocketAddress {
    pub ip: IpAddress,
    pub port: u16,
}

impl IpAddress {
    /// Whether this is an IPv4 address.
    pub open spec fn spec_is_ipv4(&self) -> bool {
        self is V4
    }

    /// Whether this is an IPv4 address.
    #[verifier::when_used_as_spec(spec_is_ipv4)]
    pub fn is_ipv4(&self) -> (b: bool)
        ensures
            b == (self is V4),
    {
        match self {
            IpAddress::V4(..) => true,
            IpAddress::V6(..) => false,
        }
    }

    /// An IPv4 address in `127.0.0.0/8`.
    pub open spec fn spec_is_v4_loopback(&self) -> bool {
        self matches IpAddress::V4(a, _, _, _) && a == 127
    }

    /// Whether this is an IPv4 address in `127.0.0.0/8`.
    #[verifier::when_used_as_spec(spec_is_v4_loopback)]
    pub fn is_v4_loopback(&self) -> (b: bool)
        ensures
            b == self.spec_is_v4_loopback(),
    {
        match self {
            IpAddress::V4(a, _, _, _) => *a == 127,
            IpAddress::V6(..) => false,
        }
    }

    /// An IPv4 address in `169.254.0.0/16`.
    pub open spec fn spec_is_v4_link_local(&self) -> bool {
        self matches IpAddress::V4(a, b, _, _) && a == 169 && b == 254
    }

    /// Whether this is an IPv4 address in `169.254.0.0/16`.
    #[verifier::when_used_as_spec(spec_is_v4_link_local)]
    pub fn is_v4_link_local(&self) -> (b: bool)
        ensures
            b == self.spec_is_v4_link_local(),
    {
        match self {
            IpAddress::V4(a, b, _, _) => *a == 169 && *b == 254,
            IpAddress::V6(..) => false,
        }
    }
}

impl SocketAddress {
    /// The socket address of `ip` and `port`.
    pub fn new(ip: IpAddress, port: u16) -> (a: Self)
        ensures
            a.ip == ip,
            a.port == port,
    {
        Self { ip, port }
    }

    /// The address.
    pub fn ip(&self) -> (ip: IpAddress)
        ensures
            ip == self.ip,
    {
        self.ip
    }

    /// The port.
    pub fn port(&self) -> (port: u16)
        ensures
            port == self.port,
    {
        self.port
    }
}

/// The octet that `s` denotes in dotted-decimal notation: one to three
/// decimal digits, no leading zero before another digit, at most 255.
pub open spec fn octet_of(s: Seq<char>) -> Option<u8> {
    if 1 <= s.len() <= 3 && all_digits(s) && (s.len() == 1 || s[0] != '0') && digits_value(s)
        <= 255 {
        Some(digits_value(s) as u8)
    } else {
        None
    }
}

/// The IPv4 address that `s` denotes: four octets between three dots.
pub open spec fn v4_of(s: Seq<char>) -> Option<IpAddress> {
    let f = fields(s, '.');
    if f.len() == 4 && octet_of(f[0]) is Some && octet_of(f[1]) is Some && octet_of(f[2]) is Some
        && octet_of(f[3]) is Some {
        Some(
            IpAddress::V4(
                octet_of(f[0])->0,
                octet_of(f[1])->0,
                octet_of(f[2])->0,
                octet_of(f[3])->0,
            ),
        )
    } else {
        None
    }
}

/// Reads one octet of dotted-decimal notation.
pub fn parse_octet(s: &[char]) -> (r: Option<u8>)
    ensures
        r == octet_of(s@),
{
    if s.len() < 1 || s.len() > 3 {
        return None;
    }
    if s.len() > 1 && s[0] == '0' {
        return None;
    }
    if s[0] == '+' {
        assert(!all_digits(s@)) by {
            assert(!crate::text::spec_is_digit(s@[0]));
        }
        return None;
    }
    match parse_unsigned(s, 255) {
        Some(v) => Some(v as u8),
        None => None,
    }
}

/// Reads an IPv4 address in dotted-decimal notation.
pub fn parse_v4(s: &[char]) -> (r: Option<IpAddress>)
    ensures
        r == v4_of(s@),
{
    let f = split(s, '.');
    if f.len() != 4 {
        return None;
    }
    let a = parse_octet(f[0].as_slice());
    let b = parse_octet(f[1].as_slice());
    let c = parse_octet(f[2].as_slice());
    let d = parse_octet(f[3].as_slice());
    match (a, b, c, d) {
        (Some(a), Some(b), Some(c), Some(d)) => Some(IpAddress::V4(a, b, c, d)),
        _ => None,
    }
}

/// The value of a hexadecimal digit in either case; nothing for any other character.
pub open spec fn hex_value(c: char) -> Option<u16> {
    if '0' <= c <= '9' {
        Some((c as u8 - '0' as u8) as u16)
    } else if 'a' <= c <= 'f' {
        Some((c as u8 - 'a' as u8 + 10) as u16)
    } else if 'A' <= c <= 'F' {
        Some((c as u8 - 'A' as u8 + 10) as u16)
    } else {
        None
    }
}

/// The number that hexadecimal digits denote, the empty run denoting zero;
/// nothing if a character is no hexadecimal digit. Meant for runs of at most
/// four digits.
pub open spec fn hex_digits_value(s: Seq<char>) -> Option<int>
    decreases s.len(),
{
    if s.len() == 0 {
        Some(0)
    } else {
        match (hex_digits_value(s.drop_last()), hex_value(s.last())) {
            (Some(high), Some(low)) => Some(high * 16 + low),
            _ => None,
        }
    }
}

/// The group that `s` denotes in an IPv6 text: one to four hexadecimal digits.
pub open spec fn group_of(s: Seq<char>) -> Option<u16> {
    if 1 <= s.len() <= 4 && hex_digits_value(s) is Some {
        Some(hex_digits_value(s)->0 as u16)
    } else {
        None
    }
}

/// The groups that fields between colons denote: one group for each field
/// of hexadecimal digits, and two groups for a last field that is an IPv4
/// address in dotted-decimal notation.
pub open spec fn groups_of(f: Seq<Seq<char>>) -> Option<Seq<u16>>
    decreases f.len(),
{
    if f.len() == 0 {
        Some(Seq::empty())
    } else {
        match group_of(f[0]) {
            Some(g) => match groups_of(f.drop_first()) {
                Some(rest) => Some(seq![g] + rest),
                None => None,
            },
            None => match v4_of(f[0]) {
                Some(IpAddress::V4(a, b, c, d)) => if f.len() == 1 {
                    Some(seq![(a * 256 + b) as u16, (c * 256 + d) as u16])
                } else {
                    None
                },
                _ => None,
            }
        }
    }
}

/// Whether every field from `from` up to `to` holds something.
pub open spec fn all_filled(f: Seq<Seq<char>>, from: int, to: int) -> bool {
    forall|i: int| from <= i < to ==> (#[trigger] f[i]).len() > 0
}

/// Where the fields between colons of an IPv6 text part at its double
/// colon: the fields before it and the fields behind it. Without a double
/// colon all fields stand before and nothing is said to stand behind. A
/// text with a lone colon at an end, with two double colons or with three
/// colons in a row parts nowhere.
pub open spec fn parted(f: Seq<Seq<char>>) -> Option<(Seq<Seq<char>>, Option<Seq<Seq<char>>>)> {
    let n = f.len() as int;
    if all_filled(f, 0, n) {
        Some((f, None))
    } else if n < 3 {
        None
    } else if f[0].len() == 0 {
        if f[1].len() == 0 && all_filled(f, 2, n) {
            Some((Seq::empty(), Some(f.subrange(2, n))))
        } else if n == 3 && f[1].len() == 0 && f[2].len() == 0 {
            Some((Seq::empty(), Some(Seq::empty())))
        } else {
            None
        }
    } else if f[n - 1].len() == 0 {
        if f[n - 2].len() == 0 && all_filled(f, 0, n - 2) {
            Some((f.subrange(0, n - 2), Some(Seq::empty())))
        } else {
            None
        }
    } else {
        let k = first_empty(f, 0);
        if all_filled(f, k + 1, n) {
            Some((f.subrange(0, k), Some(f.subrange(k + 1, n))))
        } else {
            None
        }
    }
}

/// Position of the first empty field at or behind `from`, or the number of
/// fields if there is none.
pub open spec fn first_empty(f: Seq<Seq<char>>, from: int) -> int
    decreases f.len() - from,
{
    if from < 0 || from >= f.len() {
        f.len() as int
    } else if f[from].len() == 0 {
        from
    } else {
        first_empty(f, from + 1)
    }
}

/// The IPv6 address of eight groups.
pub open spec fn v6_from(g: Seq<u16>) -> IpAddress {
    IpAddress::V6(g[0], g[1], g[2], g[3], g[4], g[5], g[6], g[7])
}

/// The IPv6 address that `s` denotes: eight groups between colons, where a
/// double colon may stand once for one or more zero groups and the last two
/// groups may be written as an IPv4 address, which must not stand before a
/// double colon.
pub open spec fn v6_of(s: Seq<char>) -> Option<IpAddress> {
    match parted(fields(s, ':')) {
        Some((head, None)) => match groups_of(head) {
            Some(g) => if g.len() == 8 {
                Some(v6_from(g))
            } else {
                None
            },
            None => None,
        },
        Some((head, Some(tail))) => match (groups_of(head), groups_of(tail)) {
            (Some(h), Some(t)) => if h.len() == head.len() && h.len() + t.len() <= 7 {
                Some(v6_from(h + Seq::new((8 - h.len() - t.len()) as nat, |i: int| 0u16) + t))
            } else {
                None
            },
            _ => None,
        },
        None => None,
    }
}

/// The address that `s` denotes: an IPv4 address in dotted-decimal
/// notation, or an IPv6 address.
pub open spec fn ip_of(s: Seq<char>) -> Option<IpAddress> {
    match v4_of(s) {
        Some(ip) => Some(ip),
        None => v6_of(s),
    }
}

fn parse_hex_value(c: char) -> (v: Option<u16>)
    ensures
        v == hex_value(c),
{
    if '0' <= c && c <= '9' {
        Some((c as u8 - 48u8) as u16)
    } else if 'a' <= c && c <= 'f' {
        Some((c as u8 - 97u8 + 10) as u16)
    } else if 'A' <= c && c <= 'F' {
        Some((c as u8 - 65u8 + 10) as u16)
    } else {
        None
    }
}

/// Reads one group of an IPv6 text.
pub fn parse_group(s: &[char]) -> (r: Option<u16>)
    ensures
        r == group_of(s@),
{
    if s.len() < 1 || s.len() > 4 {
        return None;
    }
    let mut value: u16 = 0;
    let mut i: usize = 0;
    assert(s@.subrange(0, 0) =~= Seq::<char>::empty());
    while i < s.len()
        invariant
            i <= s@.len() <= 4,
            hex_digits_value(s@.subrange(0, i as int)) == Some(value as int),
            value < pow16(i as nat),
        decreases s@.len() - i,
    {
        let ghost prefix = s@.subrange(0, i as int);
        let ghost next = s@.subrange(0, i + 1);
        assert(next.drop_last() =~= prefix);
        assert(next.last() == s@[i as int]);
        match parse_hex_value(s[i]) {
            Some(d) => {
                assert(pow16((i + 1) as nat) == 16 * pow16(i as nat));
                assert(pow16(i as nat) <= 4096) by {
                    reveal_with_fuel(pow16, 5);
                }
                value = value * 16 + d;
            },
            None => {
                proof {
                    lemma_bad_digit_spoils(s@, i as int);
                }
                return None;
            },
        }
        i += 1;
    }
    assert(s@.subrange(0, i as int) =~= s@);
    Some(value)
}

/// Sixteen to the power of `n`.
pub open spec fn pow16(n: nat) -> int
    decreases n,
{
    if n == 0 {
        1
    } else {
        16 * pow16((n - 1) as nat)
    }
}

proof fn lemma_bad_digit_spoils(s: Seq<char>, i: int)
    requires
        0 <= i < s.len(),
        hex_value(s[i]) is None,
    ensures
        hex_digits_value(s) is None,
    decreases s.len(),
{
    if i < s.len() - 1 {
        lemma_bad_digit_spoils(s.drop_last(), i);
    }
}

fn parse_groups(f: &Vec<Vec<char>>, from: usize, to: usize) -> (r: Option<Vec<u16>>)
    requires
        from <= to <= f@.len(),
    ensures
        match r {
            Some(g) => groups_of(field_views(f@).subrange(from as int, to as int)) == Some(g@),
            None => groups_of(field_views(f@).subrange(from as int, to as int)) is None,
        },
{
    let ghost all = field_views(f@);
    let mut out: Vec<u16> = Vec::new();
    let mut i: usize = from;
    assert(Seq::<u16>::empty() + Seq::<u16>::empty() =~= Seq::<u16>::empty());
    while i < to
        invariant
            from <= i <= to <= f@.len(),
            all == field_views(f@),
            groups_of(all.subrange(from as int, to as int)) == match groups_of(
                all.subrange(i as int, to as int),
            ) {
                Some(rest) => Some(out@ + rest),
                None => None,
            },
        decreases to - i,
    {
        let ghost rest = all.subrange(i as int, to as int);
        assert(rest[0] == f@[i as int]@);
        assert(rest.drop_first() =~= all.subrange(i + 1, to as int));
        match parse_group(f[i].as_slice()) {
            Some(g) => {
                proof {
                    match groups_of(rest.drop_first()) {
                        Some(more) => {
                            assert(out@ + (seq![g] + more) =~= out@.push(g) + more);
                        },
                        None => {},
                    }
                }
                out.push(g);
            },
            None => {
                if i + 1 != to {
                    return None;
                }
                assert(rest.len() == 1);
                match parse_v4(f[i].as_slice()) {
                    Some(IpAddress::V4(a, b, c, d)) => {
                        out.push((a as u16) * 256 + (b as u16));
                        out.push((c as u16) * 256 + (d as u16));
                        return Some(out);
                    },
                    _ => {
                        return None;
                    },
                }
            },
        }
        i += 1;
    }
    assert(all.subrange(i as int, to as int) =~= Seq::<Seq<char>>::empty());
    assert(out@ + Seq::<u16>::empty() =~= out@);
    Some(out)
}

/// Fields as plain values.
pub open spec fn field_views(f: Seq<Vec<char>>) -> Seq<Seq<char>> {
    Seq::new(f.len(), |i: int| f[i]@)
}

fn filled(f: &Vec<Vec<char>>, from: usize, to: usize) -> (b: bool)
    requires
        from <= to <= f@.len(),
    ensures
        b == all_filled(field_views(f@), from as int, to as int),
{
    let mut i: usize = from;
    while i < to
        invariant
            from <= i <= to <= f@.len(),
            all_filled(field_views(f@), from as int, i as int),
        decreases to - i,
    {
        if f[i].len() == 0 {
            assert(field_views(f@)[i as int].len() == 0);
            return false;
        }
        i += 1;
    }
    true
}

fn find_empty(f: &Vec<Vec<char>>) -> (k: usize)
    ensures
        k == first_empty(field_views(f@), 0),
        k <= f@.len(),
        k < f@.len() ==> f@[k as int]@.len() == 0,
        all_filled(field_views(f@), 0, k as int),
{
    let mut k: usize = 0;
    while k < f.len() && f[k].len() > 0
        invariant
            k <= f@.len(),
            first_empty(field_views(f@), 0) == first_empty(field_views(f@), k as int),
            all_filled(field_views(f@), 0, k as int),
        decreases f@.len() - k,
    {
        assert(field_views(f@)[k as int].len() > 0);
        k += 1;
    }
    k
}

fn address_of_groups(g: &Vec<u16>) -> (ip: IpAddress)
    requires
        g@.len() == 8,
    ensures
        ip == v6_from(g@),
{
    IpAddress::V6(g[0], g[1], g[2], g[3], g[4], g[5], g[6], g[7])
}

/// Reads an IPv6 address.
pub fn parse_v6(s: &[char]) -> (r: Option<IpAddress>)
    ensures
        r == v6_of(s@),
{
    let f = split(s, ':');
    let ghost fv = field_views(f@);
    assert(fv =~= fields(s@, ':'));
    let n = f.len();
    let (head_to, tail_from): (usize, Option<usize>) = if filled(&f, 0, n) {
        (n, None)
    } else if n < 3 {
        return None;
    } else if f[0].len() == 0 {
        assert(fv[0].len() == 0);
        if f[1].len() == 0 && filled(&f, 2, n) {
            (0, Some(2))
        } else if n == 3 && f[1].len() == 0 && f[2].len() == 0 {
            (0, Some(n))
        } else {
            assert(fv[1] == f@[1]@ && (n == 3 ==> fv[2] == f@[2]@));
            return None;
        }
    } else if f[n - 1].len() == 0 {
        assert(fv[0] == f@[0]@ && fv[n - 1] == f@[n - 1]@ && fv[n - 2] == f@[n - 2]@);
        if f[n - 2].len() == 0 && filled(&f, 0, n - 2) {
            (n - 2, Some(n))
        } else {
            return None;
        }
    } else {
        assert(fv[0] == f@[0]@ && fv[n - 1] == f@[n - 1]@);
        let k = find_empty(&f);
        assert(k < n) by {
            if k >= n {
                assert(all_filled(fv, 0, n as int));
            }
        }
        if filled(&f, k + 1, n) {
            (k, Some(k + 1))
        } else {
            return None;
        }
    };
    proof {
        assert(fv.subrange(0, n as int) =~= fv);
        assert(fv.subrange(n as int, n as int) =~= Seq::<Seq<char>>::empty());
        assert(fv.subrange(0, 0) =~= Seq::<Seq<char>>::empty());
    }
    match tail_from {
        None => {
            assert(parted(fv) == Some((fv, None::<Seq<Seq<char>>>)));
            match parse_groups(&f, 0, n) {
                Some(g) => if g.len() == 8 {
                    Some(address_of_groups(&g))
                } else {
                    None
                },
                None => None,
            }
        },
        Some(from) => {
            assert(parted(fv) == Some(
                (fv.subrange(0, head_to as int), Some(fv.subrange(from as int, n as int))),
            ));
            let head = parse_groups(&f, 0, head_to);
            let tail = parse_groups(&f, from, n);
            match (head, tail) {
                (Some(h), Some(t)) => {
                    if h.len() != head_to || h.len() > 7 || t.len() > 7 || h.len() + t.len() > 7 {
                        return None;
                    }
                    let mut g: Vec<u16> = Vec::new();
                    let mut i: usize = 0;
                    while i < h.len()
                        invariant
                            i <= h@.len(),
                            g@ == h@.subrange(0, i as int),
                        decreases h@.len() - i,
                    {
                        g.push(h[i]);
                        i += 1;
                        assert(g@ =~= h@.subrange(0, i as int));
                    }
                    let zeros = 8 - h.len() - t.len();
                    let mut z: usize = 0;
                    assert(h@.subrange(0, i as int) =~= h@);
                    while z < zeros
                        invariant
                            z <= zeros,
                            g@ == h@ + Seq::new(z as nat, |i: int| 0u16),
                        decreases zeros - z,
                    {
                        g.push(0);
                        z += 1;
                        assert(g@ =~= h@ + Seq::new(z as nat, |i: int| 0u16));
                    }
                    let mut j: usize = 0;
                    let ghost mid = g@;
                    while j < t.len()
                        invariant
                            j <= t@.len(),
                            g@ == mid + t@.subrange(0, j as int),
                        decreases t@.len() - j,
                    {
                        g.push(t[j]);
                        j += 1;
                        assert(g@ =~= mid + t@.subrange(0, j as int));
                    }
                    assert(t@.subrange(0, j as int) =~= t@);
                    Some(address_of_groups(&g))
                },
                _ => None,
            }
        },
    }
}

/// Reads an address.
pub fn parse_ip(s: &[char]) -> (r: Option<IpAddress>)
    ensures
        r == ip_of(s@),
{
    match parse_v4(s) {
        Some(ip) => Some(ip),
        None => parse_v6(s),
    }
}

/// The port that `s` denotes: decimal digits, at least one, at most 65535.
pub open spec fn port_of(s: Seq<char>) -> Option<u16> {
    if s.len() > 0 && all_digits(s) && digits_value(s) <= 0xffff {
        Some(digits_value(s) as u16)
    } else {
        None
    }
}

/// The socket address that `s` denotes: an IPv4 address, a colon and a
/// port; or an IPv6 address in square brackets, a colon and a port.
pub open spec fn socket_addr_of(s: Seq<char>) -> Option<SocketAddress> {
    if s.len() > 0 && s[0] == '[' {
        let close = first_index(s, ']');
        if close + 1 < s.len() && s[close + 1] == ':' && v6_of(s.subrange(1, close)) is Some
            && port_of(s.subrange(close + 2, s.len() as int)) is Some {
            Some(
                SocketAddress {
                    ip: v6_of(s.subrange(1, close))->0,
                    port: port_of(s.subrange(close + 2, s.len() as int))->0,
                },
            )
        } else {
            None
        }
    } else {
        let f = fields(s, ':');
        if f.len() == 2 && v4_of(f[0]) is Some && port_of(f[1]) is Some {
            Some(SocketAddress { ip: v4_of(f[0])->0, port: port_of(f[1])->0 })
        } else {
            None
        }
    }
}

/// Reads a port.
pub fn parse_port(s: &[char]) -> (r: Option<u16>)
    ensures
        r == port_of(s@),
{
    if s.len() == 0 {
        return None;
    }
    if s[0] == '+' {
        assert(!all_digits(s@)) by {
            assert(!crate::text::spec_is_digit(s@[0]));
        }
        return None;
    }
    match parse_unsigned(s, 0xffff) {
        Some(v) => Some(v as u16),
        None => None,
    }
}

/// Reads a socket address.
pub fn parse_socket_addr(s: &[char]) -> (r: Option<SocketAddress>)
    ensures
        r == socket_addr_of(s@),
{
    if s.len() > 0 && s[0] == '[' {
        assert(s@.subrange(0, s@.len() as int) =~= s@);
        let close = crate::text::find_from(s, ']', 0);
        proof {
            crate::text::lemma_first_index(s@, ']');
        }
        if s.len() - close < 2 || s[close + 1] != ':' {
            return None;
        }
        let ip = parse_v6(vstd::slice::slice_subrange(s, 1, close));
        let port = parse_port(vstd::slice::slice_subrange(s, close + 2, s.len()));
        return match (ip, port) {
            (Some(ip), Some(port)) => Some(SocketAddress { ip, port }),
            _ => None,
        };
    }
    let f = split(s, ':');
    if f.len() != 2 {
        return None;
    }
    match (parse_v4(f[0].as_slice()), parse_port(f[1].as_slice())) {
        (Some(ip), Some(port)) => Some(SocketAddress { ip, port }),
        _ => None,
    }
}

impl SocketAddress {
    /// Reads a socket address from its text.
    pub fn parse(s: &str) -> (r: Option<Self>)
        ensures
            r == socket_addr_of(s@),
    {
        let chars = chars_of(s);
        parse_socket_addr(chars.as_slice())
    }
}

impl IpAddress {
    /// Reads an address from its text.
    pub fn parse(s: &str) -> (r: Option<Self>)
        ensures
            r == ip_of(s@),
    {
        let chars = chars_of(s);
        parse_ip(chars.as_slice())
    }
}

impl std::str::FromStr for SocketAddress {
    type Err = ();

    fn from_str(s: &str) -> (r: Result<Self, ()>)
        ensures
            r == match socket_addr_of(s@) {
                Some(a) => Ok::<SocketAddress, ()>(a),
                None => Err::<SocketAddress, ()>(()),
            },
    {
        match SocketAddress::parse(s) {
            Some(a) => Ok(a),
            None => Err(()),
        }
    }
}

impl std::str::FromStr for IpAddress {
    type Err = ();

    fn from_str(s: &str) -> (r: Result<Self, ()>)
        ensures
            r == match ip_of(s@) {
                Some(a) => Ok::<IpAddress, ()>(a),
                None => Err::<IpAddress, ()>(()),
            },
    {
        match IpAddress::parse(s) {
            Some(a) => Ok(a),
            None => Err(()),
        }
    }
}

/// The lower-case hexadecimal digit of a number below sixteen.
pub open spec fn hex_char(d: nat) -> char {
    if d < 10 {
        (('0' as u8) + d as u8) as char
    } else {
        (('a' as u8) + (d - 10) as u8) as char
    }
}

/// Lower-case hexadecimal text of a number, without leading zeros.
pub open spec fn hex(n: nat) -> Seq<char>
    decreases n,
{
    if n < 16 {
        seq![hex_char(n)]
    } else {
        hex(n / 16).push(hex_char(n % 16))
    }
}

/// Dotted-decimal text of four octets.
pub open spec fn v4_text(a: u8, b: u8, c: u8, d: u8) -> Seq<char> {
    decimal(a as nat) + seq!['.'] + decimal(b as nat) + seq!['.'] + decimal(c as nat) + seq!['.']
        + decimal(d as nat)
}

/// Length of the run of zero groups that starts at `i`; zero where the group
/// at `i` is not zero.
pub open spec fn zero_run(g: Seq<u16>, i: int) -> nat
    decreases g.len() - i,
{
    if 0 <= i < g.len() && g[i] == 0 {
        1 + zero_run(g, i + 1)
    } else {
        0
    }
}

/// Whether the run of zero groups starting at `start` is the one that the
/// text abbreviates: it has at least two groups, no run is longer, and no
/// run as long starts earlier.
pub open spec fn abbreviates(g: Seq<u16>, start: int) -> bool {
    &&& 0 <= start < g.len()
    &&& zero_run(g, start) >= 2
    &&& forall|j: int| 0 <= j < g.len() ==> zero_run(g, j) <= zero_run(g, start)
    &&& forall|j: int| 0 <= j < start ==> zero_run(g, j) < zero_run(g, start)
}

/// Colon-separated hexadecimal text of the groups from `from` up to `to`.
pub open spec fn groups_text(g: Seq<u16>, from: int, to: int) -> Seq<char>
    decreases to - from,
{
    if from >= to {
        Seq::empty()
    } else if from + 1 == to {
        hex(g[from] as nat)
    } else {
        groups_text(g, from, to - 1) + seq![':'] + hex(g[to - 1] as nat)
    }
}

/// Whether the groups are an IPv4 address mapped into IPv6: `::ffff:a.b.c.d`.
pub open spec fn is_v4_mapped(g: Seq<u16>) -> bool {
    g[0] == 0 && g[1] == 0 && g[2] == 0 && g[3] == 0 && g[4] == 0 && g[5] == 0xffff
}

/// Text of eight groups: a mapped IPv4 address in mixed notation; otherwise
/// hexadecimal groups with the first longest run of two or more zero groups
/// written as `::`.
pub open spec fn v6_text(g: Seq<u16>) -> Seq<char> {
    if is_v4_mapped(g) {
        seq![':', ':', 'f', 'f', 'f', 'f', ':'] + v4_text(
            (g[6] / 256) as u8,
            (g[6] % 256) as u8,
            (g[7] / 256) as u8,
            (g[7] % 256) as u8,
        )
    } else if exists|s: int| abbreviates(g, s) {
        let s = choose|s: int| abbreviates(g, s);
        groups_text(g, 0, s) + seq![':', ':'] + groups_text(g, s + zero_run(g, s), 8)
    } else {
        groups_text(g, 0, 8)
    }
}

impl IpAddress {
    /// The eight groups of an IPv6 address; empty for IPv4.
    pub open spec fn groups(&self) -> Seq<u16> {
        match *self {
            IpAddress::V4(..) => Seq::empty(),
            IpAddress::V6(a, b, c, d, e, f, g, h) => seq![a, b, c, d, e, f, g, h],
        }
    }

    /// The text of the address.
    pub open spec fn text(&self) -> Seq<char> {
        match *self {
            IpAddress::V4(a, b, c, d) => v4_text(a, b, c, d),
            IpAddress::V6(..) => v6_text(self.groups()),
        }
    }
}

impl SocketAddress {
    /// The text of the address: `ip:port`, with an IPv6 address in brackets.
    pub open spec fn text(&self) -> Seq<char> {
        match self.ip {
            IpAddress::V4(..) => self.ip.text() + seq![':'] + decimal(self.port as nat),
            IpAddress::V6(..) => seq!['['] + self.ip.text() + seq![']', ':'] + decimal(
                self.port as nat,
            ),
        }
    }
}

/// Appends the hexadecimal text of `n` to `out`.
pub fn push_hex(out: &mut Vec<char>, n: u16)
    ensures
        final(out)@ == old(out)@ + hex(n as nat),
    decreases n,
{
    if n >= 16 {
        push_hex(out, n / 16);
    }
    let d = (n % 16) as u8;
    let c = if d < 10 {
        (48u8 + d) as char
    } else {
        (97u8 + (d - 10)) as char
    };
    assert(c == hex_char((n % 16) as nat));
    out.push(c);
    assert(out@ =~= old(out)@ + hex(n as nat));
}

/// Appends the dotted-decimal text of four octets to `out`.
pub fn push_v4(out: &mut Vec<char>, a: u8, b: u8, c: u8, d: u8)
    ensures
        final(out)@ == old(out)@ + v4_text(a, b, c, d),
{
    push_decimal(out, a as u64);
    out.push('.');
    push_decimal(out, b as u64);
    out.push('.');
    push_decimal(out, c as u64);
    out.push('.');
    push_decimal(out, d as u64);
    assert(out@ =~= old(out)@ + v4_text(a, b, c, d));
}

/// Appends the colon-separated text of the groups from `from` up to `to`.
fn push_groups(out: &mut Vec<char>, g: &[u16; 8], from: usize, to: usize)
    requires
        from <= to <= 8,
    ensures
        final(out)@ == old(out)@ + groups_text(g@, from as int, to as int),
{
    let mut i: usize = from;
    assert(out@ =~= old(out)@ + groups_text(g@, from as int, from as int));
    while i < to
        invariant
            from <= i <= to <= 8,
            out@ == old(out)@ + groups_text(g@, from as int, i as int),
        decreases to - i,
    {
        if i > from {
            out.push(':');
        }
        push_hex(out, g[i]);
        i += 1;
        assert(out@ =~= old(out)@ + groups_text(g@, from as int, i as int));
    }
}

/// Finds the run of zero groups that the text abbreviates, if there is one.
fn find_abbreviated_run(g: &[u16; 8]) -> (r: Option<(usize, usize)>)
    ensures
        match r {
            Some((start, len)) => abbreviates(g@, start as int) && len == zero_run(
                g@,
                start as int,
            ) && start + len <= 8,
            None => forall|s: int| !abbreviates(g@, s),
        },
{
    let mut runs = [0usize; 9];
    let mut i: usize = 8;
    assert(zero_run(g@, 8) == 0);
    while i > 0
        invariant
            i <= 8,
            runs@[8] == 0,
            forall|j: int| i <= j <= 8 ==> runs@[j] == zero_run(g@, j) && runs@[j] + j <= 8,
        decreases i,
    {
        i -= 1;
        let len = if g[i] == 0 {
            runs[i + 1] + 1
        } else {
            0
        };
        runs[i] = len;
    }
    let mut best: usize = 0;
    let mut k: usize = 1;
    while k < 8
        invariant
            1 <= k <= 8,
            best < k,
            forall|j: int| 0 <= j <= 8 ==> runs@[j] == zero_run(g@, j) && runs@[j] + j <= 8,
            forall|j: int| 0 <= j < k ==> runs@[j] <= runs@[best as int],
            forall|j: int| 0 <= j < best ==> runs@[j] < runs@[best as int],
        decreases 8 - k,
    {
        if runs[k] > runs[best] {
            best = k;
        }
        k += 1;
    }
    if runs[best] >= 2 {
        Some((best, runs[best]))
    } else {
        assert forall|s: int| !abbreviates(g@, s) by {
            if abbreviates(g@, s) {
                assert(zero_run(g@, s) <= zero_run(g@, best as int));
            }
        }
        None
    }
}

/// The abbreviated run is unique: two starts that both qualify are the same.
proof fn lemma_abbreviated_run_is_unique(g: Seq<u16>, a: int, b: int)
    requires
        abbreviates(g, a),
        abbreviates(g, b),
    ensures
        a == b,
{
    if a < b {
        assert(zero_run(g, a) < zero_run(g, b));
        assert(zero_run(g, b) <= zero_run(g, a));
    } else if b < a {
        assert(zero_run(g, b) < zero_run(g, a));
        assert(zero_run(g, a) <= zero_run(g, b));
    }
}

impl IpAddress {
    /// Appends the text of the address to `out`.
    pub fn push_text(&self, out: &mut Vec<char>)
        ensures
            final(out)@ == old(out)@ + self.text(),
    {
        match *self {
            IpAddress::V4(a, b, c, d) => push_v4(out, a, b, c, d),
            IpAddress::V6(a, b, c, d, e, f, g, h) => {
                let groups = [a, b, c, d, e, f, g, h];
                assert(groups@ =~= self.groups());
                if a == 0 && b == 0 && c == 0 && d == 0 && e == 0 && f == 0xffff {
                    out.push(':');
                    out.push(':');
                    out.push('f');
                    out.push('f');
                    out.push('f');
                    out.push('f');
                    out.push(':');
                    push_v4(out, (g / 256) as u8, (g % 256) as u8, (h / 256) as u8, (h % 256) as u8);
                    assert(out@ =~= old(out)@ + self.text());
                } else {
                    match find_abbreviated_run(&groups) {
                        Some((start, len)) => {
                            proof {
                                let s = choose|s: int| abbreviates(groups@, s);
                                lemma_abbreviated_run_is_unique(groups@, s, start as int);
                            }
                            push_groups(out, &groups, 0, start);
                            out.push(':');
                            out.push(':');
                            push_groups(out, &groups, start + len, 8);
                            assert(out@ =~= old(out)@ + self.text());
                        },
                        None => {
                            push_groups(out, &groups, 0, 8);
                        },
                    }
                }
            },
        }
    }

    /// The text of the address as a string.
    pub fn to_text(&self) -> (s: String)
        ensures
            s@ == self.text(),
    {
        let mut out: Vec<char> = Vec::new();
        self.push_text(&mut out);
        string_of(out.as_slice())
    }
}

impl SocketAddress {
    /// Appends the text of the address to `out`.
    pub fn push_text(&self, out: &mut Vec<char>)
        ensures
            final(out)@ == old(out)@ + self.text(),
    {
        match self.ip {
            IpAddress::V4(..) => {
                self.ip.push_text(out);
                out.push(':');
                push_decimal(out, self.port as u64);
            },
            IpAddress::V6(..) => {
                out.push('[');
                self.ip.push_text(out);
                out.push(']');
                out.push(':');
                push_decimal(out, self.port as u64);
            },
        }
        assert(out@ =~= old(out)@ + self.text());
    }

    /// The text of the address as a string.
    pub fn to_text(&self) -> (s: String)
        ensures
            s@ == self.text(),
    {
        let mut out: Vec<char> = Vec::new();
        self.push_text(&mut out);
        string_of(out.as_slice())
    }
}

} // verus!
