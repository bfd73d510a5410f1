//! The wire format of values: little-endian integers, length-prefixed bytes
//! and texts, each with the reader that takes back what was written.

use vstd::bytes::{
    lemma_auto_spec_u16_to_from_le_bytes, lemma_auto_spec_u32_to_from_le_bytes,
    lemma_auto_spec_u64_to_from_le_bytes, spec_u16_from_le_bytes, spec_u16_to_le_bytes,
    spec_u32_from_le_bytes, spec_u32_to_le_bytes, spec_u64_from_le_bytes, spec_u64_to_le_bytes,
    u16_from_le_bytes, u16_to_le_bytes, u32_from_le_bytes, u32_to_le_bytes, u64_from_le_bytes,
    u64_to_le_bytes,
};
use vstd::prelude::*;
use vstd::slice::slice_subrange;
use vstd::utf8::{decode_utf8, encode_utf8, valid_utf8};

verus! {

/// Calls `String::from_utf8` of std. The contract claims that the call
/// succeeds exactly on well-formed UTF-8 and then gives the text that the
/// bytes encode.
#[verifier::external_body]
pub(crate) fn string_from_utf8(bytes: Vec<u8>) -> (s: Option<String>)
    ensures
        s is Some <==> valid_utf8(bytes@),
        s matches Some(text) ==> text@ == decode_utf8(bytes@),
{
    String::from_utf8(bytes).ok()
}

/// A length-prefixed run of bytes: the length as 64 bits in little-endian
/// order, then the bytes.
pub open spec fn enc_bytes(b: Seq<u8>) -> Seq<u8> {
    spec_u64_to_le_bytes(b.len() as u64) + b
}

/// A text: its UTF-8 bytes, length-prefixed.
pub open spec fn enc_str(s: Seq<char>) -> Seq<u8> {
    enc_bytes(encode_utf8(s))
}

/// A truth value: one byte, 1 or 0.
pub open spec fn enc_bool(b: bool) -> Seq<u8> {
    seq![if b { 1u8 } else { 0u8 }]
}

/// An optional text: a byte 0, or a byte 1 and the text.
pub open spec fn enc_opt_str(o: Option<Seq<char>>) -> Seq<u8> {
    match o {
        None => seq![0u8],
        Some(s) => seq![1u8] + enc_str(s),
    }
}

/// The 32-bit words of `w` in little-endian order, one after the other.
pub open spec fn flat_words(w: Seq<u32>) -> Seq<u8> {
    Seq::new(w.len() * 4, |k: int| spec_u32_to_le_bytes(w[k / 4])[k % 4])
}

/// A length-prefixed run of 32-bit words: the count as 64 bits, then the words.
pub open spec fn enc_words(w: Seq<u32>) -> Seq<u8> {
    spec_u64_to_le_bytes(w.len() as u64) + flat_words(w)
}

/// The rest of `d` behind its first `n` bytes.
pub open spec fn behind(d: Seq<u8>, n: int) -> Seq<u8> {
    d.subrange(n, d.len() as int)
}

/// Reads 64 bits from the head of `d`.
pub open spec fn take_u64(d: Seq<u8>) -> Option<(u64, Seq<u8>)> {
    if d.len() >= 8 {
        Some((spec_u64_from_le_bytes(d.subrange(0, 8)), behind(d, 8)))
    } else {
        None
    }
}

/// Reads 32 bits from the head of `d`.
pub open spec fn take_u32(d: Seq<u8>) -> Option<(u32, Seq<u8>)> {
    if d.len() >= 4 {
        Some((spec_u32_from_le_bytes(d.subrange(0, 4)), behind(d, 4)))
    } else {
        None
    }
}

/// Reads 16 bits from the head of `d`.
pub open spec fn take_u16(d: Seq<u8>) -> Option<(u16, Seq<u8>)> {
    if d.len() >= 2 {
        Some((spec_u16_from_le_bytes(d.subrange(0, 2)), behind(d, 2)))
    } else {
        None
    }
}

/// Reads a fixed number of bytes from the head of `d`.
pub open spec fn take_fixed(d: Seq<u8>, n: int) -> Option<(Seq<u8>, Seq<u8>)> {
    if 0 <= n <= d.len() {
        Some((d.subrange(0, n), behind(d, n)))
    } else {
        None
    }
}

/// Reads a length-prefixed run of bytes from the head of `d`.
pub open spec fn take_bytes(d: Seq<u8>) -> Option<(Seq<u8>, Seq<u8>)> {
    match take_u64(d) {
        Some((n, rest)) => take_fixed(rest, n as int),
        None => None,
    }
}

/// Reads a text from the head of `d`; bytes that are not UTF-8 are refused.
pub open spec fn take_str(d: Seq<u8>) -> Option<(Seq<char>, Seq<u8>)> {
    match take_bytes(d) {
        Some((b, rest)) => if valid_utf8(b) {
            Some((decode_utf8(b), rest))
        } else {
            None
        },
        None => None,
    }
}

/// Reads a truth value from the head of `d`; a byte other than 0 and 1 is refused.
pub open spec fn take_bool(d: Seq<u8>) -> Option<(bool, Seq<u8>)> {
    if d.len() >= 1 && d[0] <= 1 {
        Some((d[0] == 1, behind(d, 1)))
    } else {
        None
    }
}

/// Reads an optional text from the head of `d`.
pub open spec fn take_opt_str(d: Seq<u8>) -> Option<(Option<Seq<char>>, Seq<u8>)> {
    match take_bool(d) {
        Some((false, rest)) => Some((None, rest)),
        Some((true, rest)) => match take_str(rest) {
            Some((s, rest2)) => Some((Some(s), rest2)),
            None => None,
        },
        None => None,
    }
}

/// Reads a length-prefixed run of 32-bit words from the head of `d`.
pub open spec fn take_words(d: Seq<u8>) -> Option<(Seq<u32>, Seq<u8>)> {
    match take_u64(d) {
        Some((n, rest)) => if 4 * n <= rest.len() {
            Some(
                (
                    Seq::new(n as nat, |i: int| spec_u32_from_le_bytes(rest.subrange(4 * i, 4 * i + 4))),
                    behind(rest, 4 * n),
                ),
            )
        } else {
            None
        },
        None => None,
    }
}

/// What is written is read back: each reader, at the head of what its writer
/// wrote followed by anything, gives the value back and leaves what followed.
pub proof fn lemma_take_u64(x: u64, tail: Seq<u8>)
    ensures
        take_u64(spec_u64_to_le_bytes(x) + tail) == Some((x, tail)),
{
    lemma_auto_spec_u64_to_from_le_bytes();
    let d = spec_u64_to_le_bytes(x) + tail;
    assert(d.subrange(0, 8) =~= spec_u64_to_le_bytes(x));
    assert(behind(d, 8) =~= tail);
}

/// What is written is read back: 32 bits.
pub proof fn lemma_take_u32(x: u32, tail: Seq<u8>)
    ensures
        take_u32(spec_u32_to_le_bytes(x) + tail) == Some((x, tail)),
{
    lemma_auto_spec_u32_to_from_le_bytes();
    let d = spec_u32_to_le_bytes(x) + tail;
    assert(d.subrange(0, 4) =~= spec_u32_to_le_bytes(x));
    assert(behind(d, 4) =~= tail);
}

/// What is written is read back: 16 bits.
pub proof fn lemma_take_u16(x: u16, tail: Seq<u8>)
    ensures
        take_u16(spec_u16_to_le_bytes(x) + tail) == Some((x, tail)),
{
    lemma_auto_spec_u16_to_from_le_bytes();
    let d = spec_u16_to_le_bytes(x) + tail;
    assert(d.subrange(0, 2) =~= spec_u16_to_le_bytes(x));
    assert(behind(d, 2) =~= tail);
}

/// What is written is read back: a run of bytes of known length.
pub proof fn lemma_take_fixed(b: Seq<u8>, tail: Seq<u8>)
    ensures
        take_fixed(b + tail, b.len() as int) == Some((b, tail)),
{
    assert((b + tail).subrange(0, b.len() as int) =~= b);
    assert(behind(b + tail, b.len() as int) =~= tail);
}

/// What is written is read back: a length-prefixed run of bytes.
pub proof fn lemma_take_bytes(b: Seq<u8>, tail: Seq<u8>)
    requires
        b.len() <= u64::MAX,
    ensures
        take_bytes(enc_bytes(b) + tail) == Some((b, tail)),
{
    lemma_take_u64(b.len() as u64, b + tail);
    assert(enc_bytes(b) + tail =~= spec_u64_to_le_bytes(b.len() as u64) + (b + tail));
    lemma_take_fixed(b, tail);
}

/// What is written is read back: a text.
pub proof fn lemma_take_str(s: Seq<char>, tail: Seq<u8>)
    requires
        encode_utf8(s).len() <= u64::MAX,
    ensures
        take_str(enc_str(s) + tail) == Some((s, tail)),
{
    lemma_take_bytes(encode_utf8(s), tail);
    vstd::utf8::encode_utf8_valid_utf8(s);
    vstd::utf8::encode_utf8_decode_utf8(s);
}

/// What is written is read back: a truth value.
pub proof fn lemma_take_bool(b: bool, tail: Seq<u8>)
    ensures
        take_bool(enc_bool(b) + tail) == Some((b, tail)),
{
    assert(behind(enc_bool(b) + tail, 1) =~= tail);
}

/// What is written is read back: a text that may be missing.
pub proof fn lemma_take_opt_str(o: Option<Seq<char>>, tail: Seq<u8>)
    requires
        o matches Some(s) ==> encode_utf8(s).len() <= u64::MAX,
    ensures
        take_opt_str(enc_opt_str(o) + tail) == Some((o, tail)),
{
    match o {
        None => {
            assert(behind(enc_opt_str(o) + tail, 1) =~= tail);
        },
        Some(s) => {
            assert(behind(enc_opt_str(o) + tail, 1) =~= enc_str(s) + tail);
            lemma_take_str(s, tail);
        },
    }
}

/// What is written is read back: a run of 32-bit words.
pub proof fn lemma_take_words(w: Seq<u32>, tail: Seq<u8>)
    requires
        w.len() * 4 <= u64::MAX,
    ensures
        take_words(enc_words(w) + tail) == Some((w, tail)),
{
    lemma_auto_spec_u32_to_from_le_bytes();
    let rest = flat_words(w) + tail;
    lemma_take_u64(w.len() as u64, rest);
    assert(enc_words(w) + tail =~= spec_u64_to_le_bytes(w.len() as u64) + rest);
    let got = Seq::new(w.len(), |i: int| spec_u32_from_le_bytes(rest.subrange(4 * i, 4 * i + 4)));
    assert forall|i: int| 0 <= i < w.len() implies got[i] == w[i] by {
        assert(rest.subrange(4 * i, 4 * i + 4) =~= spec_u32_to_le_bytes(w[i])) by {
            assert forall|j: int| 0 <= j < 4 implies rest.subrange(4 * i, 4 * i + 4)[j]
                == spec_u32_to_le_bytes(w[i])[j] by {
                assert((4 * i + j) / 4 == i);
                assert((4 * i + j) % 4 == j);
                assert(rest[4 * i + j] == flat_words(w)[4 * i + j]);
            }
        }
    }
    assert(got =~= w);
    assert(behind(rest, 4 * (w.len() as int)) =~= tail);
}

/// Appends 64 bits in little-endian order.
pub fn put_u64(out: &mut Vec<u8>, x: u64)
    ensures
        final(out)@ == old(out)@ + spec_u64_to_le_bytes(x),
{
    let b = u64_to_le_bytes(x);
    out.extend_from_slice(b.as_slice());
}

/// Appends 32 bits in little-endian order.
pub fn put_u32(out: &mut Vec<u8>, x: u32)
    ensures
        final(out)@ == old(out)@ + spec_u32_to_le_bytes(x),
{
    let b = u32_to_le_bytes(x);
    out.extend_from_slice(b.as_slice());
}

/// Appends 16 bits in little-endian order.
pub fn put_u16(out: &mut Vec<u8>, x: u16)
    ensures
        final(out)@ == old(out)@ + spec_u16_to_le_bytes(x),
{
    let b = u16_to_le_bytes(x);
    out.extend_from_slice(b.as_slice());
}

/// Appends a length-prefixed run of bytes.
pub fn put_bytes(out: &mut Vec<u8>, b: &[u8])
    ensures
        final(out)@ == old(out)@ + enc_bytes(b@),
{
    put_u64(out, b.len() as u64);
    out.extend_from_slice(b);
    assert(out@ =~= old(out)@ + enc_bytes(b@));
}

/// Appends a text.
pub fn put_str(out: &mut Vec<u8>, s: &str)
    ensures
        final(out)@ == old(out)@ + enc_str(s@),
{
    put_bytes(out, s.as_bytes());
}

/// Appends a truth value.
pub fn put_bool(out: &mut Vec<u8>, b: bool)
    ensures
        final(out)@ == old(out)@ + enc_bool(b),
{
    out.push(if b {
        1u8
    } else {
        0u8
    });
    assert(out@ =~= old(out)@ + enc_bool(b));
}

/// Appends an optional text.
pub fn put_opt_str(out: &mut Vec<u8>, o: &Option<String>)
    ensures
        final(out)@ == old(out)@ + enc_opt_str(
            match *o {
                Some(s) => Some(s@),
                None => None,
            },
        ),
{
    match o {
        None => {
            out.push(0u8);
            assert(out@ =~= old(out)@ + seq![0u8]);
        },
        Some(s) => {
            out.push(1u8);
            put_str(out, s.as_str());
            assert(out@ =~= old(out)@ + (seq![1u8] + enc_str(s@)));
        },
    }
}

/// Appends a length-prefixed run of 32-bit words.
pub fn put_words(out: &mut Vec<u8>, w: &[u32])
    ensures
        final(out)@ == old(out)@ + enc_words(w@),
{
    put_u64(out, w.len() as u64);
    let ghost head = out@;
    let mut i: usize = 0;
    proof {
        lemma_auto_spec_u32_to_from_le_bytes();
        assert(flat_words(w@.subrange(0, 0)) =~= Seq::<u8>::empty());
        assert(out@ =~= head + flat_words(w@.subrange(0, 0)));
    }
    while i < w.len()
        invariant
            i <= w@.len(),
            out@ == head + flat_words(w@.subrange(0, i as int)),
        decreases w@.len() - i,
    {
        put_u32(out, w[i]);
        proof {
            lemma_auto_spec_u32_to_from_le_bytes();
            let a = flat_words(w@.subrange(0, i as int));
            let b = flat_words(w@.subrange(0, i + 1));
            assert(b =~= a + spec_u32_to_le_bytes(w@[i as int])) by {
                assert forall|k: int| 0 <= k < b.len() implies b[k] == (a + spec_u32_to_le_bytes(
                    w@[i as int],
                ))[k] by {
                    if k < 4 * i {
                        assert(k / 4 < i);
                    } else {
                        assert(k / 4 == i);
                        assert(k % 4 == k - 4 * i);
                    }
                }
            }
        }
        i += 1;
    }
    assert(w@.subrange(0, i as int) =~= w@);
    assert(out@ =~= old(out)@ + enc_words(w@));
}

/// A cursor over received bytes.
pub struct Reader<'a> {
    data: &'a [u8],
    pos: usize,
}

impl<'a> Reader<'a> {
    /// What is left to read.
    pub closed spec fn rest(&self) -> Seq<u8> {
        self.data@.subrange(self.pos as int, self.data@.len() as int)
    }

    /// The cursor stands within the bytes.
    pub closed spec fn wf(&self) -> bool {
        self.pos <= self.data@.len()
    }

    /// A reader at the start of `data`.
    pub fn new(data: &'a [u8]) -> (r: Self)
        ensures
            r.wf(),
            r.rest() == data@,
    {
        let r = Reader { data, pos: 0 };
        assert(r.rest() =~= data@);
        r
    }

    fn left(&self) -> (n: usize)
        requires
            self.wf(),
        ensures
            n == self.rest().len(),
    {
        self.data.len() - self.pos
    }

    fn advance(&mut self, n: usize) -> (taken: &'a [u8])
        requires
            old(self).wf(),
            n <= old(self).rest().len(),
        ensures
            final(self).wf(),
            taken@ == old(self).rest().subrange(0, n as int),
            final(self).rest() == behind(old(self).rest(), n as int),
    {
        let len = self.data.len();
        assert(self.rest().len() == len - self.pos);
        let taken = slice_subrange(self.data, self.pos, self.pos + n);
        self.pos = self.pos + n;
        assert(taken@ =~= old(self).rest().subrange(0, n as int));
        assert(self.rest() =~= behind(old(self).rest(), n as int));
        taken
    }

    /// Reads 64 bits in little-endian order.
    pub fn u64(&mut self) -> (r: Option<u64>)
        requires
            old(self).wf(),
        ensures
            final(self).wf(),
            match take_u64(old(self).rest()) {
                Some((v, rest)) => r == Some(v) && final(self).rest() == rest,
                None => r is None,
            },
    {
        if self.left() < 8 {
            return None;
        }
        Some(u64_from_le_bytes(self.advance(8)))
    }

    /// Reads 32 bits in little-endian order.
    pub fn u32(&mut self) -> (r: Option<u32>)
        requires
            old(self).wf(),
        ensures
            final(self).wf(),
            match take_u32(old(self).rest()) {
                Some((v, rest)) => r == Some(v) && final(self).rest() == rest,
                None => r is None,
            },
    {
        if self.left() < 4 {
            return None;
        }
        Some(u32_from_le_bytes(self.advance(4)))
    }

    /// Reads 16 bits in little-endian order.
    pub fn u16(&mut self) -> (r: Option<u16>)
        requires
            old(self).wf(),
        ensures
            final(self).wf(),
            match take_u16(old(self).rest()) {
                Some((v, rest)) => r == Some(v) && final(self).rest() == rest,
                None => r is None,
            },
    {
        if self.left() < 2 {
            return None;
        }
        Some(u16_from_le_bytes(self.advance(2)))
    }

    /// Reads `n` bytes.
    pub fn fixed(&mut self, n: usize) -> (r: Option<&'a [u8]>)
        requires
            old(self).wf(),
        ensures
            final(self).wf(),
            match take_fixed(old(self).rest(), n as int) {
                Some((v, rest)) => r matches Some(b) && b@ == v && final(self).rest() == rest,
                None => r is None,
            },
    {
        if self.left() < n {
            return None;
        }
        Some(self.advance(n))
    }

    /// Reads a length-prefixed run of bytes.
    pub fn bytes(&mut self) -> (r: Option<Vec<u8>>)
        requires
            old(self).wf(),
        ensures
            final(self).wf(),
            match take_bytes(old(self).rest()) {
                Some((v, rest)) => r matches Some(b) && b@ == v && final(self).rest() == rest,
                None => r is None,
            },
    {
        let n = match self.u64() {
            Some(n) => n,
            None => {
                return None;
            },
        };
        if n > self.left() as u64 {
            return None;
        }
        let taken = self.advance(n as usize);
        Some(vstd::slice::slice_to_vec(taken))
    }

    /// Reads a text: length-prefixed, well-formed UTF-8.
    pub fn string(&mut self) -> (r: Option<String>)
        requires
            old(self).wf(),
        ensures
            final(self).wf(),
            match take_str(old(self).rest()) {
                Some((v, rest)) => r matches Some(s) && s@ == v && final(self).rest() == rest,
                None => r is None,
            },
    {
        match self.bytes() {
            Some(b) => string_from_utf8(b),
            None => None,
        }
    }

    /// Reads a truth value: one byte, zero or one.
    pub fn bool(&mut self) -> (r: Option<bool>)
        requires
            old(self).wf(),
        ensures
            final(self).wf(),
            match take_bool(old(self).rest()) {
                Some((v, rest)) => r == Some(v) && final(self).rest() == rest,
                None => r is None,
            },
    {
        if self.left() < 1 {
            return None;
        }
        let b = self.advance(1);
        if b[0] > 1 {
            return None;
        }
        Some(b[0] == 1)
    }

    /// Reads a text that may be missing: a byte that is zero, or a byte that
    /// is one and then the text.
    pub fn opt_string(&mut self) -> (r: Option<Option<String>>)
        requires
            old(self).wf(),
        ensures
            final(self).wf(),
            match take_opt_str(old(self).rest()) {
                Some((v, rest)) => r matches Some(o) && final(self).rest() == rest && match o {
                    Some(s) => v == Some(s@),
                    None => v is None,
                },
                None => r is None,
            },
    {
        match self.bool() {
            Some(false) => Some(None),
            Some(true) => match self.string() {
                Some(s) => Some(Some(s)),
                None => None,
            },
            None => None,
        }
    }

    /// Reads a run of 32-bit words: their number as 64 bits, then each word in
    /// little-endian order.
    pub fn words(&mut self) -> (r: Option<Vec<u32>>)
        requires
            old(self).wf(),
        ensures
            final(self).wf(),
            match take_words(old(self).rest()) {
                Some((v, rest)) => r matches Some(w) && w@ == v && final(self).rest() == rest,
                None => r is None,
            },
    {
        let n = match self.u64() {
            Some(n) => n,
            None => {
                return None;
            },
        };
        let left = self.left();
        if n > (left / 4) as u64 {
            return None;
        }
        let count = n as usize;
        let ghost start = self.rest();
        let mut out: Vec<u32> = Vec::new();
        let mut i: usize = 0;
        assert(behind(start, 0) =~= start);
        while i < count
            invariant
                i <= count,
                4 * count <= start.len(),
                self.wf(),
                self.rest() == behind(start, 4 * i),
                out@.len() == i,
                forall|k: int|
                    0 <= k < i ==> out@[k] == spec_u32_from_le_bytes(start.subrange(4 * k, 4 * k + 4)),
            decreases count - i,
        {
            let chunk = self.advance(4);
            assert(chunk@ =~= start.subrange(4 * i, 4 * i + 4));
            out.push(u32_from_le_bytes(chunk));
            assert(self.rest() =~= behind(start, 4 * (i + 1)));
            i += 1;
        }
        assert(out@ =~= Seq::new(
            n as nat,
            |k: int| spec_u32_from_le_bytes(start.subrange(4 * k, 4 * k + 4)),
        ));
        Some(out)
    }
}

} // verus!
