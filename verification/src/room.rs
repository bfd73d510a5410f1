//! Rooms: their ids, their passwords, and the links by which they are
//! shared.

use crate::primitives::{is_lower_hex, lemma_hex_lower_shape, 
    base64_decode, base64_encode, base64_standard, base64_standard_decoded, hex_encode, hex_lower,
    hkdf_expand_32, hkdf_sha256, sha256, sha256_digest,
};
use crate::random::random_bytes_16;
use crate::text::{
    chars_of, copy_range, fields, find_from, first_index, has_prefix, lemma_first_index_is, split,
    starts_with, string_of,
};
use crate::time::wall_clock_secs;
use vstd::bytes::{spec_u64_to_le_bytes, u64_to_le_bytes};
use vstd::prelude::*;
use vstd::slice::slice_subrange;
use vstd::string::StringExecFns;
use vstd::utf8::encode_utf8;

verus! {

/// Length of the salt of a password hash, in bytes.
pub const SALT_LENGTH: usize = 16;

/// Most participants of a room unless the configuration says otherwise.
pub const DEFAULT_MAX_PARTICIPANTS: usize = 20;

/// A room that peers meet in. The creation time is in seconds since the Unix epoch.
#[derive(Debug, Clone)]
pub struct Room {
    pub id: String,
    pub name: Option<String>,
    pub creator_peer_id: String,
    pub password_hash: Option<String>,
    pub max_participants: usize,
    pub created_at: u64,
}

/// What a room is to be created with.
#[derive(Debug, Clone)]
pub struct RoomConfig {
    pub name: Option<String>,
    pub password: Option<String>,
    pub max_participants: Option<usize>,
}

impl RoomConfig {
    /// An open room without a name.
    pub fn default_public() -> (c: Self)
        ensures
            c.name is None,
            c.password is None,
            c.max_participants == Some(DEFAULT_MAX_PARTICIPANTS),
    {
        Self { name: None, password: None, max_participants: Some(DEFAULT_MAX_PARTICIPANTS) }
    }

    /// An open room called `name`.
    pub fn named(name: String) -> (c: Self)
        ensures
            c.name == Some(name),
            c.password is None,
            c.max_participants == Some(DEFAULT_MAX_PARTICIPANTS),
    {
        Self { name: Some(name), password: None, max_participants: Some(DEFAULT_MAX_PARTICIPANTS) }
    }

    /// A room without a name that `password` opens.
    pub fn private(password: String) -> (c: Self)
        ensures
            c.name is None,
            c.password == Some(password),
            c.max_participants == Some(DEFAULT_MAX_PARTICIPANTS),
    {
        Self { name: None, password: Some(password), max_participants: Some(DEFAULT_MAX_PARTICIPANTS) }
    }
}

/// The room id made of sixteen drawn bytes and a timestamp: the first eight
/// bytes of the SHA-256 digest of the drawn bytes followed by the timestamp
/// in little-endian order, in hexadecimal.
pub open spec fn room_id_of(drawn: Seq<u8>, timestamp: u64) -> Seq<char> {
    hex_lower(sha256(drawn + spec_u64_to_le_bytes(timestamp)).subrange(0, 8))
}

/// Thirty-two zero bytes, the info that password hashes are derived with.
pub open spec fn zero_info() -> Seq<u8> {
    Seq::new(32, |i: int| 0u8)
}

/// What a password is derived to under a salt: HKDF-SHA256 over the
/// password with thirty-two zero bytes as info.
pub open spec fn password_digest(password: Seq<char>, salt: Seq<u8>) -> Seq<u8> {
    hkdf_sha256(Some(salt), encode_utf8(password), zero_info())
}

/// The stored form of a password under a salt: the salt and the digest in
/// base64 with a colon between them.
pub open spec fn password_hash_of(password: Seq<char>, salt: Seq<u8>) -> Seq<char> {
    base64_standard(salt) + seq![':'] + base64_standard(password_digest(password, salt))
}

/// Whether a password matches a stored form: the stored form has two fields
/// between colons, the first denotes a salt of sixteen bytes and the second
/// a digest of thirty-two, and the password is derived to that digest under
/// that salt.
pub open spec fn password_matches(password: Seq<char>, stored: Seq<char>) -> bool {
    let f = fields(stored, ':');
    &&& f.len() == 2
    &&& base64_standard_decoded(f[0]) matches Some(salt)
    &&& salt.len() == SALT_LENGTH
    &&& base64_standard_decoded(f[1]) matches Some(digest)
    &&& digest.len() == 32
    &&& password_digest(password, salt) == digest
}

/// Whether `id` has the form of a room id: sixteen characters, each a digit
/// or one of the letters `a` to `f`.
pub open spec fn is_room_id(id: Seq<char>) -> bool {
    id.len() == 16 && forall|i: int| 0 <= i < id.len() ==> is_lower_hex(#[trigger] id[i])
}

/// Makes a room id of sixteen drawn bytes and a timestamp.
pub fn room_id_from(drawn: &[u8; 16], timestamp: u64) -> (id: String)
    ensures
        id@ == room_id_of(drawn@, timestamp),
        is_room_id(id@),
{
    let mut data: Vec<u8> = Vec::new();
    data.extend_from_slice(drawn.as_slice());
    let stamp = u64_to_le_bytes(timestamp);
    data.extend_from_slice(stamp.as_slice());
    assert(data@ =~= drawn@ + spec_u64_to_le_bytes(timestamp));
    let hash = sha256_digest(data.as_slice());
    proof {
        lemma_hex_lower_shape(hash@.subrange(0, 8));
    }
    hex_encode(slice_subrange(hash.as_slice(), 0, 8))
}

/// Makes a room id of bytes drawn at random and the current clock reading.
pub fn generate_room_id() -> (id: String)
    ensures
        exists|drawn: Seq<u8>, timestamp: u64| id@ == #[trigger] room_id_of(drawn, timestamp),
        is_room_id(id@),
{
    let drawn = random_bytes_16();
    let timestamp = wall_clock_secs();
    let id = room_id_from(&drawn, timestamp);
    assert(id@ == room_id_of(drawn@, timestamp));
    id
}

fn zero_bytes_32() -> (z: [u8; 32])
    ensures
        z@ == zero_info(),
{
    let z = [0u8; 32];
    assert(z@ =~= zero_info());
    z
}

/// The stored form of a password under a given salt.
pub fn hash_password_with(password: &str, salt: &[u8; 16]) -> (stored: String)
    ensures
        stored@ == password_hash_of(password@, salt@),
        password_matches(password@, stored@),
{
    let info = zero_bytes_32();
    let digest = hkdf_expand_32(Some(salt.as_slice()), password.as_bytes(), info.as_slice());
    let mut out = chars_of(base64_encode(salt.as_slice()).as_str());
    out.push(':');
    let second = chars_of(base64_encode(digest.as_slice()).as_str());
    let mut i: usize = 0;
    let ghost head = out@;
    assert(head + second@.subrange(0, 0) =~= head);
    while i < second.len()
        invariant
            i <= second@.len(),
            out@ == head + second@.subrange(0, i as int),
        decreases second@.len() - i,
    {
        out.push(second[i]);
        i += 1;
        assert(out@ =~= head + second@.subrange(0, i as int));
    }
    assert(second@.subrange(0, i as int) =~= second@);
    assert(out@ =~= password_hash_of(password@, salt@));
    proof {
        lemma_password_matches_its_hash(password@, salt@);
    }
    string_of(out.as_slice())
}

/// The stored form of a password under a salt drawn at random.
pub fn hash_password(password: &str) -> (stored: String)
    ensures
        exists|salt: Seq<u8>|
            salt.len() == SALT_LENGTH && stored@ == #[trigger] password_hash_of(password@, salt),
        password_matches(password@, stored@),
{
    let salt = random_bytes_16();
    let stored = hash_password_with(password, &salt);
    assert(salt@.len() == SALT_LENGTH && stored@ == password_hash_of(password@, salt@));
    stored
}

fn same_bytes(a: &[u8], b: &[u8]) -> (r: bool)
    ensures
        r == (a@ == b@),
{
    if a.len() != b.len() {
        return false;
    }
    let mut i: usize = 0;
    while i < a.len()
        invariant
            i <= a@.len(),
            a@.len() == b@.len(),
            forall|j: int| 0 <= j < i ==> a@[j] == b@[j],
        decreases a@.len() - i,
    {
        if a[i] != b[i] {
            return false;
        }
        i += 1;
    }
    assert(a@ =~= b@);
    true
}

/// Whether a password matches a stored form.
pub fn verify_password_hash(password: &str, stored_hash: &str) -> (ok: bool)
    ensures
        ok == password_matches(password@, stored_hash@),
{
    let stored = chars_of(stored_hash);
    let parts = split(stored.as_slice(), ':');
    if parts.len() != 2 {
        return false;
    }
    let salt = match base64_decode(string_of(parts[0].as_slice()).as_str()) {
        Some(s) => s,
        None => {
            return false;
        },
    };
    if salt.len() != SALT_LENGTH {
        return false;
    }
    let expected = match base64_decode(string_of(parts[1].as_slice()).as_str()) {
        Some(h) => h,
        None => {
            return false;
        },
    };
    if expected.len() != 32 {
        return false;
    }
    let info = zero_bytes_32();
    let computed = hkdf_expand_32(Some(salt.as_slice()), password.as_bytes(), info.as_slice());
    same_bytes(computed.as_slice(), expected.as_slice())
}

/// A password matches the stored form that it was hashed to, whatever the salt.
pub proof fn lemma_password_matches_its_hash(password: Seq<char>, salt: Seq<u8>)
    requires
        salt.len() == SALT_LENGTH,
        password_digest(password, salt).len() == 32,
        base64_standard_decoded(base64_standard(salt)) == Some(salt),
        base64_standard_decoded(base64_standard(password_digest(password, salt))) == Some(
            password_digest(password, salt),
        ),
        !base64_standard(salt).contains(':'),
        !base64_standard(password_digest(password, salt)).contains(':'),
    ensures
        password_matches(password, password_hash_of(password, salt)),
{
    let a = base64_standard(salt);
    let b = base64_standard(password_digest(password, salt));
    let stored = a + seq![':'] + b;
    assert forall|j: int| 0 <= j < a.len() implies stored[j] != ':' by {
        assert(a.contains(a[j]));
    }
    crate::text::lemma_first_index_is(stored, ':', a.len() as int);
    assert(stored.subrange(0, a.len() as int) =~= a);
    let rest = stored.subrange(a.len() as int + 1, stored.len() as int);
    assert(rest =~= b);
    assert forall|j: int| 0 <= j < b.len() implies b[j] != ':' by {
        assert(b.contains(b[j]));
    }
    crate::text::lemma_first_index_is(b, ':', b.len() as int);
    assert(fields(b, ':') =~= seq![b]);
    assert(fields(stored, ':') =~= seq![a] + seq![b]);
}

impl Room {
    /// The room that `creator_peer_id` creates with `config` from a given
    /// room id, a given salt and a given creation time.
    pub fn new_with(
        creator_peer_id: String,
        config: RoomConfig,
        id: String,
        salt: &[u8; 16],
        created_at: u64,
    ) -> (r: Self)
        ensures
            r.id == id,
            r.name == config.name,
            r.creator_peer_id == creator_peer_id,
            match config.password {
                Some(p) => r.password_hash matches Some(h) && h@ == password_hash_of(p@, salt@)
                    && password_matches(p@, h@),
                None => r.password_hash is None,
            },
            r.max_participants == match config.max_participants {
                Some(n) => n,
                None => DEFAULT_MAX_PARTICIPANTS,
            },
            r.created_at == created_at,
    {
        let password_hash = match &config.password {
            Some(p) => Some(hash_password_with(p.as_str(), salt)),
            None => None,
        };
        Self {
            id,
            name: config.name,
            creator_peer_id,
            password_hash,
            max_participants: match config.max_participants {
                Some(n) => n,
                None => DEFAULT_MAX_PARTICIPANTS,
            },
            created_at,
        }
    }

    /// The room that `creator_peer_id` creates with `config` at the current
    /// clock reading, with a room id and a salt drawn at random.
    pub fn new(creator_peer_id: String, config: RoomConfig) -> (r: Self)
        ensures
            r.name == config.name,
            r.creator_peer_id == creator_peer_id,
            exists|drawn: Seq<u8>, timestamp: u64| r.id@ == #[trigger] room_id_of(drawn, timestamp),
            is_room_id(r.id@),
            match config.password {
                Some(p) => r.password_hash matches Some(h) && password_matches(p@, h@)
                    && exists|salt: Seq<u8>|
                    salt.len() == SALT_LENGTH && h@ == #[trigger] password_hash_of(p@, salt),
                None => r.password_hash is None,
            },
            r.max_participants == match config.max_participants {
                Some(n) => n,
                None => DEFAULT_MAX_PARTICIPANTS,
            },
    {
        let id = generate_room_id();
        let salt = random_bytes_16();
        let ghost password = config.password;
        let r = Self::new_with(creator_peer_id, config, id, &salt, wall_clock_secs());
        proof {
            match password {
                Some(p) => {
                    assert(salt@.len() == SALT_LENGTH && r.password_hash->0@ == password_hash_of(
                        p@,
                        salt@,
                    ));
                },
                None => {},
            }
        }
        r
    }

    /// Whether `password` opens the room: any password opens a room without
    /// one; otherwise the password must match the stored form.
    pub fn verify_password(&self, password: &str) -> (ok: bool)
        ensures
            ok == match self.password_hash {
                Some(h) => password_matches(password@, h@),
                None => true,
            },
    {
        match &self.password_hash {
            Some(hash) => verify_password_hash(password, hash.as_str()),
            None => true,
        }
    }

    /// Whether a password is needed to enter.
    pub fn has_password(&self) -> (b: bool)
        ensures
            b == self.password_hash is Some,
    {
        self.password_hash.is_some()
    }

    /// The link to the room: `agora://room/<room id>`.
    pub fn share_link(&self) -> (link: String)
        ensures
            link@ == "agora://room/"@ + self.id@,
    {
        let mut link = "agora://room/".to_owned();
        link.append(self.id.as_str());
        link
    }

    /// The link to the room, with `?p=` and the password behind it where
    /// the room has a password. The password is written with its escapes, so
    /// that reading the link gives it back.
    pub fn share_link_with_password(&self, password: &str) -> (link: String)
        ensures
            link@ == if self.password_hash is Some {
                "agora://room/"@ + self.id@ + "?p="@ + url_encoded(password@)
            } else {
                "agora://room/"@ + self.id@
            },
            url_decoded(url_encoded(password@)) == password@,
    {
        proof {
            lemma_url_round_trip(password@);
        }
        if self.has_password() {
            let mut out = chars_of(self.share_link().as_str());
            let marker = chars_of("?p=");
            let mut i: usize = 0;
            while i < marker.len()
                invariant
                    i <= marker@.len(),
                    out@ == "agora://room/"@ + self.id@ + marker@.subrange(0, i as int),
                decreases marker@.len() - i,
            {
                out.push(marker[i]);
                i += 1;
                assert(marker@.subrange(0, i as int) =~= marker@.subrange(0, i - 1).push(
                    marker@[i - 1],
                ));
            }
            assert(marker@.subrange(0, marker@.len() as int) =~= marker@);
            let encoded = urlencoding_encode(chars_of(password).as_slice());
            let mut k: usize = 0;
            while k < encoded.len()
                invariant
                    k <= encoded@.len(),
                    out@ == "agora://room/"@ + self.id@ + "?p="@ + encoded@.subrange(0, k as int),
                decreases encoded@.len() - k,
            {
                out.push(encoded[k]);
                k += 1;
                assert(encoded@.subrange(0, k as int) =~= encoded@.subrange(0, k - 1).push(
                    encoded@[k - 1],
                ));
            }
            assert(encoded@.subrange(0, encoded@.len() as int) =~= encoded@);
            string_of(out.as_slice())
        } else {
            self.share_link()
        }
    }
}

/// The character that two characters behind a percent sign stand for:
/// `%20` is a blank, `%21` is `!`, `%40` is `@`, `%23` is `#`, `%24` is `$`,
/// `%25` is `%`, `%26` is `&`, `%2B` is `+`, `%3D` is `=`. Nothing else is an
/// escape.
pub open spec fn escaped_char(b: char, c: char) -> Option<char> {
    if b == '2' && c == '0' {
        Some(' ')
    } else if b == '2' && c == '1' {
        Some('!')
    } else if b == '4' && c == '0' {
        Some('@')
    } else if b == '2' && c == '3' {
        Some('#')
    } else if b == '2' && c == '4' {
        Some('$')
    } else if b == '2' && c == '5' {
        Some('%')
    } else if b == '2' && c == '6' {
        Some('&')
    } else if b == '2' && c == 'B' {
        Some('+')
    } else if b == '3' && c == 'D' {
        Some('=')
    } else {
        None
    }
}

/// The two characters that stand for `c` behind a percent sign, for the
/// nine characters that are written as escapes.
pub open spec fn escape_of(c: char) -> Option<(char, char)> {
    if c == ' ' {
        Some(('2', '0'))
    } else if c == '!' {
        Some(('2', '1'))
    } else if c == '@' {
        Some(('4', '0'))
    } else if c == '#' {
        Some(('2', '3'))
    } else if c == '$' {
        Some(('2', '4'))
    } else if c == '%' {
        Some(('2', '5'))
    } else if c == '&' {
        Some(('2', '6'))
    } else if c == '+' {
        Some(('2', 'B'))
    } else if c == '=' {
        Some(('3', 'D'))
    } else {
        None
    }
}

/// A password as a link carries it, decoded: read from left to right, every
/// escape gives the character it stands for and every other character
/// itself. What an escape gives is not read again.
pub open spec fn url_decoded(s: Seq<char>) -> Seq<char>
    decreases s.len(),
{
    if s.len() == 0 {
        s
    } else if s.len() >= 3 && s[0] == '%' && escaped_char(s[1], s[2]) is Some {
        seq![escaped_char(s[1], s[2])->0] + url_decoded(s.subrange(3, s.len() as int))
    } else {
        seq![s[0]] + url_decoded(s.drop_first())
    }
}

/// A password as a link carries it: each of the nine characters that have
/// an escape is written as its escape, every other character as itself.
pub open spec fn url_encoded(p: Seq<char>) -> Seq<char>
    decreases p.len(),
{
    if p.len() == 0 {
        p
    } else {
        (match escape_of(p[0]) {
            Some((b, c)) => seq!['%', b, c],
            None => seq![p[0]],
        }) + url_encoded(p.drop_first())
    }
}

/// Decoding what was encoded gives the password back, whatever the
/// password.
pub proof fn lemma_url_round_trip(p: Seq<char>)
    ensures
        url_decoded(url_encoded(p)) == p,
    decreases p.len(),
{
    if p.len() > 0 {
        let e = url_encoded(p);
        let rest = url_encoded(p.drop_first());
        lemma_url_round_trip(p.drop_first());
        match escape_of(p[0]) {
            Some((b, c)) => {
                assert(e =~= seq!['%', b, c] + rest);
                assert(e.subrange(3, e.len() as int) =~= rest);
                assert(escaped_char(e[1], e[2]) == Some(p[0]));
                assert(seq![p[0]] + p.drop_first() =~= p);
            },
            None => {
                assert(e =~= seq![p[0]] + rest);
                assert(e.drop_first() =~= rest);
                assert(e[0] != '%');
                assert(seq![p[0]] + p.drop_first() =~= p);
            },
        }
    }
}

fn unescape(b: char, c: char) -> (r: Option<char>)
    ensures
        r == escaped_char(b, c),
{
    if b == '2' && c == '0' {
        Some(' ')
    } else if b == '2' && c == '1' {
        Some('!')
    } else if b == '4' && c == '0' {
        Some('@')
    } else if b == '2' && c == '3' {
        Some('#')
    } else if b == '2' && c == '4' {
        Some('$')
    } else if b == '2' && c == '5' {
        Some('%')
    } else if b == '2' && c == '6' {
        Some('&')
    } else if b == '2' && c == 'B' {
        Some('+')
    } else if b == '3' && c == 'D' {
        Some('=')
    } else {
        None
    }
}

fn escape(c: char) -> (r: Option<(char, char)>)
    ensures
        r == escape_of(c),
{
    if c == ' ' {
        Some(('2', '0'))
    } else if c == '!' {
        Some(('2', '1'))
    } else if c == '@' {
        Some(('4', '0'))
    } else if c == '#' {
        Some(('2', '3'))
    } else if c == '$' {
        Some(('2', '4'))
    } else if c == '%' {
        Some(('2', '5'))
    } else if c == '&' {
        Some(('2', '6'))
    } else if c == '+' {
        Some(('2', 'B'))
    } else if c == '=' {
        Some(('3', 'D'))
    } else {
        None
    }
}

fn urlencoding_decode(s: &[char]) -> (out: Vec<char>)
    ensures
        out@ == url_decoded(s@),
{
    let mut out: Vec<char> = Vec::new();
    let mut i: usize = 0;
    assert(s@.subrange(0, s@.len() as int) =~= s@);
    while i < s.len()
        invariant
            i <= s@.len(),
            url_decoded(s@) == out@ + url_decoded(s@.subrange(i as int, s@.len() as int)),
        decreases s@.len() - i,
    {
        let ghost rest = s@.subrange(i as int, s@.len() as int);
        let ghost before = out@;
        let found = if s.len() - i >= 3 && s[i] == '%' {
            unescape(s[i + 1], s[i + 2])
        } else {
            None
        };
        match found {
            Some(c) => {
                out.push(c);
                proof {
                    assert(rest.subrange(3, rest.len() as int) =~= s@.subrange(
                        i + 3,
                        s@.len() as int,
                    ));
                    assert(before + (seq![c] + url_decoded(s@.subrange(i + 3, s@.len() as int)))
                        =~= out@ + url_decoded(s@.subrange(i + 3, s@.len() as int)));
                }
                i += 3;
            },
            None => {
                out.push(s[i]);
                proof {
                    assert(rest.drop_first() =~= s@.subrange(i + 1, s@.len() as int));
                    assert(before + (seq![s@[i as int]] + url_decoded(
                        s@.subrange(i + 1, s@.len() as int),
                    )) =~= out@ + url_decoded(s@.subrange(i + 1, s@.len() as int)));
                }
                i += 1;
            },
        }
    }
    assert(out@ + url_decoded(s@.subrange(i as int, s@.len() as int)) =~= out@);
    out
}

fn urlencoding_encode(p: &[char]) -> (out: Vec<char>)
    ensures
        out@ == url_encoded(p@),
{
    let mut out: Vec<char> = Vec::new();
    let mut i: usize = 0;
    assert(p@.subrange(0, p@.len() as int) =~= p@);
    while i < p.len()
        invariant
            i <= p@.len(),
            url_encoded(p@) == out@ + url_encoded(p@.subrange(i as int, p@.len() as int)),
        decreases p@.len() - i,
    {
        let ghost rest = p@.subrange(i as int, p@.len() as int);
        let ghost before = out@;
        proof {
            assert(rest.drop_first() =~= p@.subrange(i + 1, p@.len() as int));
        }
        match escape(p[i]) {
            Some((b, c)) => {
                out.push('%');
                out.push(b);
                out.push(c);
                assert(before + (seq!['%', b, c] + url_encoded(p@.subrange(i + 1, p@.len() as int)))
                    =~= out@ + url_encoded(p@.subrange(i + 1, p@.len() as int)));
            },
            None => {
                out.push(p[i]);
                assert(before + (seq![p@[i as int]] + url_encoded(
                    p@.subrange(i + 1, p@.len() as int),
                )) =~= out@ + url_encoded(p@.subrange(i + 1, p@.len() as int)));
            },
        }
        i += 1;
    }
    assert(out@ + url_encoded(p@.subrange(i as int, p@.len() as int)) =~= out@);
    out
}

/// What a room link denotes: nothing unless it begins with
/// `agora://room/`; otherwise the room id, which is what follows up to the
/// first question mark, and the password, which is what follows `p=` behind
/// that question mark, decoded; no password where there is no question mark
/// or no `p=` behind it.
pub open spec fn room_link_of(link: Seq<char>) -> Option<(Seq<char>, Option<Seq<char>>)> {
    if !has_prefix(link, "agora://room/"@) {
        None
    } else {
        let rest = link.subrange(13, link.len() as int);
        let q = first_index(rest, '?');
        if 0 <= q < rest.len() {
            let query = rest.subrange(q + 1, rest.len() as int);
            Some(
                (
                    rest.subrange(0, q),
                    if has_prefix(query, "p="@) {
                        Some(url_decoded(query.subrange(2, query.len() as int)))
                    } else {
                        None
                    },
                ),
            )
        } else {
            Some((rest, None))
        }
    }
}

/// A link with a password reads back: what `share_link_with_password`
/// writes for a room id without a question mark denotes that id and that
/// password, whatever the password.
pub proof fn lemma_link_reads_back(id: Seq<char>, password: Seq<char>)
    requires
        !id.contains('?'),
    ensures
        room_link_of("agora://room/"@ + id + "?p="@ + url_encoded(password)) == Some(
            (id, Some(password)),
        ),
{
    reveal_strlit("agora://room/");
    reveal_strlit("?p=");
    reveal_strlit("p=");
    let prefix = "agora://room/"@;
    let encoded = url_encoded(password);
    let link = prefix + id + "?p="@ + encoded;
    lemma_url_round_trip(password);
    assert(link.subrange(0, 13) =~= prefix);
    let rest = link.subrange(13, link.len() as int);
    assert(rest =~= id + "?p="@ + encoded);
    assert forall|j: int| 0 <= j < id.len() implies rest[j] != '?' by {
        assert(id.contains(id[j]));
    }
    assert(rest[id.len() as int] == '?');
    lemma_first_index_is(rest, '?', id.len() as int);
    let q = id.len() as int;
    assert(rest.subrange(0, q) =~= id);
    let query = rest.subrange(q + 1, rest.len() as int);
    assert(query =~= "p="@ + encoded);
    assert(query.subrange(0, 2) =~= "p="@);
    assert(query.subrange(2, query.len() as int) =~= encoded);
}

/// Reads a room link.
pub fn parse_room_link(link: &str) -> (r: Option<(String, Option<String>)>)
    ensures
        match r {
            Some((id, password)) => room_link_of(link@) == Some(
                (
                    id@,
                    match password {
                        Some(p) => Some(p@),
                        None => None,
                    },
                ),
            ),
            None => room_link_of(link@) is None,
        },
{
    let chars = chars_of(link);
    let prefix = chars_of("agora://room/");
    let marker = chars_of("p=");
    proof {
        reveal_strlit("agora://room/");
        reveal_strlit("p=");
    }
    if !starts_with(chars.as_slice(), prefix.as_slice()) {
        return None;
    }
    let rest = copy_range(chars.as_slice(), 13, chars.len());
    assert(rest@.subrange(0, rest@.len() as int) =~= rest@);
    let q = find_from(rest.as_slice(), '?', 0);
    if q < rest.len() {
        let id = copy_range(rest.as_slice(), 0, q);
        let query = copy_range(rest.as_slice(), q + 1, rest.len());
        let password = if starts_with(query.as_slice(), marker.as_slice()) {
            let raw = copy_range(query.as_slice(), 2, query.len());
            let decoded = urlencoding_decode(raw.as_slice());
            Some(string_of(decoded.as_slice()))
        } else {
            None
        };
        Some((string_of(id.as_slice()), password))
    } else {
        Some((string_of(rest.as_slice()), None))
    }
}

} // verus!
