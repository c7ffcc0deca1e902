use crate::endian::End;
use crate::error::Error;
use crate::muncher::{bytes_view, delim_pos, take_spec, until_spec, Muncher};
use crate::num::{read_spec, ReadEndian};
use vstd::prelude::*;
use vstd::utf8::{decode_utf8, encode_scalar, encode_utf8, valid_utf8};

verus! {

broadcast use vstd::utf8::group_utf8_lib;

/// What reading `len` bytes from `rest` yields under the ceiling `limit`, and
/// the bytes left after it. A length over the ceiling fails before anything
/// is consumed.
pub open spec fn fixed_bytes_spec(rest: Seq<u8>, limit: usize, len: nat) -> (
    Result<Seq<u8>, Error>,
    Seq<u8>,
) {
    if len > limit {
        (Err(Error::AllocLimit), rest)
    } else {
        take_spec(rest, len)
    }
}

/// What reading a length of type `E` in the order `end`, then that many
/// bytes, yields, and the bytes left after it.
pub open spec fn pref_bytes_spec<E: ReadEndian>(rest: Seq<u8>, limit: usize, end: End) -> (
    Result<Seq<u8>, Error>,
    Seq<u8>,
) {
    let (p, after) = read_spec::<E>(rest, end);
    match p {
        Ok(n) => fixed_bytes_spec(after, limit, n.spec_into_usize() as nat),
        Err(e) => (Err(e), after),
    }
}

/// A byte result decoded as UTF-8 text; malformed bytes are invalid data.
pub open spec fn utf8_spec(r: Result<Seq<u8>, Error>) -> Result<Seq<char>, Error> {
    match r {
        Ok(b) => if valid_utf8(b) {
            Ok(decode_utf8(b))
        } else {
            Err(Error::InvalidUtf8)
        },
        Err(e) => Err(e),
    }
}

/// A text result seen as a sequence of characters.
pub open spec fn string_view(r: Result<String, Error>) -> Result<Seq<char>, Error> {
    match r {
        Ok(s) => Ok(s@),
        Err(e) => Err(e),
    }
}

/// True for a 16-bit unit in the surrogate range, which names no character.
pub open spec fn is_surrogate(u: u16) -> bool {
    0xD800 <= u <= 0xDFFF
}

/// The big-endian 16-bit units that `b` holds, two bytes each.
pub open spec fn ucs2_units(b: Seq<u8>) -> Seq<u16> {
    Seq::new(b.len() / 2, |i: int| (b[2 * i] as int * 256 + b[2 * i + 1] as int) as u16)
}

/// The characters that the units stand for, one each.
pub open spec fn ucs2_chars(units: Seq<u16>) -> Seq<char> {
    units.map_values(|u: u16| u as char)
}

/// A byte result decoded as UCS-2 text; a surrogate unit is invalid data.
pub open spec fn ucs2_spec(r: Result<Seq<u8>, Error>) -> Result<Seq<char>, Error> {
    match r {
        Ok(b) => if exists|i: int| 0 <= i < ucs2_units(b).len() && is_surrogate(ucs2_units(b)[i]) {
            Err(Error::InvalidUcs2)
        } else {
            Ok(ucs2_chars(ucs2_units(b)))
        },
        Err(e) => Err(e),
    }
}

/// What reading `count` UCS-2 units from `rest` yields under the ceiling
/// `limit`, and the bytes left after it. The ceiling applies to the
/// `2 * count` bytes.
pub open spec fn fixed_ucs2_spec(rest: Seq<u8>, limit: usize, count: nat) -> (
    Result<Seq<char>, Error>,
    Seq<u8>,
) {
    let (b, after) = fixed_bytes_spec(rest, limit, 2 * count);
    (ucs2_spec(b), after)
}

/// What reading a count of type `E` in the order `end`, then that many
/// UCS-2 units, yields, and the bytes left after it.
pub open spec fn pref_ucs2_spec<E: ReadEndian>(rest: Seq<u8>, limit: usize, end: End) -> (
    Result<Seq<char>, Error>,
    Seq<u8>,
) {
    let (p, after) = read_spec::<E>(rest, end);
    match p {
        Ok(n) => fixed_ucs2_spec(after, limit, n.spec_into_usize() as nat),
        Err(e) => (Err(e), after),
    }
}

/// What reading a null-terminated byte string from `rest` yields (the bytes
/// before the first zero), and the bytes left after the terminator. With no
/// terminator, everything is consumed and the read fails.
pub open spec fn cstr_spec(rest: Seq<u8>) -> (Result<Seq<u8>, Error>, Seq<u8>) {
    let p = delim_pos(rest, 0) as int;
    if p < rest.len() {
        (Ok(rest.take(p)), rest.skip(p + 1))
    } else {
        (Err(Error::UnexpectedEof), Seq::empty())
    }
}

/// Relies on `String::from_utf8`: it accepts exactly the well-formed UTF-8
/// byte sequences, and the text holds the characters they encode.
#[verifier::external_body]
fn string_from_utf8(b: Vec<u8>) -> (r: Option<String>)
    ensures
        r is Some <==> valid_utf8(b@),
        r is Some ==> r->Some_0@ == decode_utf8(b@),
{
    match String::from_utf8(b) {
        Ok(s) => Some(s),
        Err(_) => None,
    }
}

/// Turns bytes into UTF-8 text, failing as invalid data when they are not
/// well-formed UTF-8.
pub fn bytes2utf8(bytes: Vec<u8>) -> (r: Result<String, Error>)
    ensures
        string_view(r) == utf8_spec(Ok(bytes@)),
{
    match string_from_utf8(bytes) {
        Some(s) => Ok(s),
        None => Err(Error::InvalidUtf8),
    }
}

/// Encoding one more character appends its own encoding.
proof fn lemma_encode_utf8_push(cs: Seq<char>, c: char)
    ensures
        encode_utf8(cs.push(c)) == encode_utf8(cs) + encode_scalar(c as u32),
    decreases cs.len(),
{
    if cs.len() == 0 {
        assert(cs.push(c).drop_first() =~= Seq::<char>::empty());
        let e = encode_scalar(c as u32);
        assert(encode_utf8(cs.push(c).drop_first()) == Seq::<u8>::empty());
        assert(encode_utf8(cs) == Seq::<u8>::empty());
        assert(cs.push(c)[0] == c);
        assert(encode_utf8(cs.push(c)) == e + Seq::<u8>::empty());
        assert(e + Seq::<u8>::empty() =~= Seq::<u8>::empty() + e);
    } else {
        lemma_encode_utf8_push(cs.drop_first(), c);
        assert(cs.push(c).drop_first() =~= cs.drop_first().push(c));
        assert(cs.push(c)[0] == cs[0]);
        let a = encode_scalar(cs[0] as u32);
        let t = encode_utf8(cs.drop_first());
        let e = encode_scalar(c as u32);
        assert(encode_utf8(cs.push(c)) == a + (t + e));
        assert(encode_utf8(cs) == a + t);
        assert(a + (t + e) =~= (a + t) + e);
    }
}

/// Appends the UTF-8 encoding of the code point `u` to `out`.
fn push_utf8(out: &mut Vec<u8>, u: u16)
    requires
        !is_surrogate(u),
    ensures
        final(out)@ == old(out)@ + encode_scalar(u as u32),
{
    let v = u as u32;
    if v < 0x80 {
        out.push((v & 0x7F) as u8);
    } else if v < 0x800 {
        out.push(0xC0 | ((v >> 6) & 0x1F) as u8);
        out.push(0x80 | (v & 0x3F) as u8);
    } else {
        out.push(0xE0 | ((v >> 12) & 0x0F) as u8);
        out.push(0x80 | ((v >> 6) & 0x3F) as u8);
        out.push(0x80 | (v & 0x3F) as u8);
    }
    assert(final(out)@ =~= old(out)@ + encode_scalar(u as u32));
}

/// Decodes big-endian UCS-2 bytes into text. A surrogate unit is refused as
/// invalid data rather than carried into ill-formed text.
fn decode_ucs2(b: &[u8]) -> (r: Result<String, Error>)
    requires
        b@.len() % 2 == 0,
    ensures
        string_view(r) == ucs2_spec(Ok(b@)),
{
    let n = b.len() / 2;
    let ghost units = ucs2_units(b@);
    let mut out: Vec<u8> = Vec::new();
    let mut i: usize = 0;
    while i < n
        invariant
            n == b@.len() / 2,
            b@.len() == b.len(),
            units == ucs2_units(b@),
            i <= n,
            out@ == encode_utf8(ucs2_chars(units.take(i as int))),
            forall|k: int| 0 <= k < i ==> !is_surrogate(units[k]),
        decreases n - i,
    {
        let u: u16 = (b[2 * i] as u16) * 256 + b[2 * i + 1] as u16;
        assert(u == units[i as int]);
        if u >= 0xD800 && u <= 0xDFFF {
            return Err(Error::InvalidUcs2);
        }
        push_utf8(&mut out, u);
        proof {
            let c = u as char;
            assert((c as u32) == (u as u32));
            lemma_encode_utf8_push(ucs2_chars(units.take(i as int)), c);
            assert(ucs2_chars(units.take(i + 1)) =~= ucs2_chars(units.take(i as int)).push(c));
        }
        i = i + 1;
    }
    assert(units.take(n as int) =~= units);
    match string_from_utf8(out) {
        Some(s) => Ok(s),
        None => Err(Error::InvalidUcs2),
    }
}

impl Muncher {
    /// Accepts a length only when it is within the allocation ceiling.
    fn verify_len(&self, len: usize) -> (r: Result<(), Error>)
        ensures
            r is Ok <==> len <= self.max_alloc(),
            r is Err ==> r == Err::<(), Error>(Error::AllocLimit),
    {
        if len > self.max_alloc_bytes() {
            Err(Error::AllocLimit)
        } else {
            Ok(())
        }
    }

    /// Reads exactly `len` bytes. A length over the allocation ceiling fails
    /// as invalid data before any byte is consumed or any buffer is made.
    pub fn read_fixed_bytes(&mut self, len: usize) -> (r: Result<Vec<u8>, Error>)
        ensures
            (bytes_view(r), final(self).rest()) == fixed_bytes_spec(
                old(self).rest(),
                old(self).max_alloc(),
                len as nat,
            ),
            len > old(self).max_alloc() ==> r == Err::<Vec<u8>, Error>(Error::AllocLimit)
                && final(self).rest() == old(self).rest(),
            final(self).max_alloc() == old(self).max_alloc(),
    {
        match self.verify_len(len) {
            Ok(()) => self.take_bytes(len),
            Err(e) => Err(e),
        }
    }

    /// Reads a length of type `E` in the order `end`, then that many bytes.
    pub fn read_pref_bytes<E: ReadEndian>(&mut self, end: End) -> (r: Result<Vec<u8>, Error>)
        ensures
            (bytes_view(r), final(self).rest()) == pref_bytes_spec::<E>(
                old(self).rest(),
                old(self).max_alloc(),
                end,
            ),
            final(self).max_alloc() == old(self).max_alloc(),
    {
        match self.read_m::<E>(end) {
            Ok(p) => {
                let len = p.into_usize();
                self.read_fixed_bytes(len)
            },
            Err(e) => Err(e),
        }
    }

    /// Reads a length of type `E` in the order `end`, then that many bytes
    /// as UTF-8 text.
    pub fn read_pref_utf8<E: ReadEndian>(&mut self, end: End) -> (r: Result<String, Error>)
        ensures
            string_view(r) == utf8_spec(
                pref_bytes_spec::<E>(old(self).rest(), old(self).max_alloc(), end).0,
            ),
            final(self).rest() == pref_bytes_spec::<E>(
                old(self).rest(),
                old(self).max_alloc(),
                end,
            ).1,
            final(self).max_alloc() == old(self).max_alloc(),
    {
        match self.read_pref_bytes::<E>(end) {
            Ok(b) => bytes2utf8(b),
            Err(e) => Err(e),
        }
    }

    /// Reads `len` bytes as UTF-8 text.
    pub fn read_fixed_utf8(&mut self, len: usize) -> (r: Result<String, Error>)
        ensures
            string_view(r) == utf8_spec(
                fixed_bytes_spec(old(self).rest(), old(self).max_alloc(), len as nat).0,
            ),
            final(self).rest() == fixed_bytes_spec(
                old(self).rest(),
                old(self).max_alloc(),
                len as nat,
            ).1,
            final(self).max_alloc() == old(self).max_alloc(),
    {
        match self.read_fixed_bytes(len) {
            Ok(b) => bytes2utf8(b),
            Err(e) => Err(e),
        }
    }

    /// Reads `char_count` UCS-2 units (big-endian, two bytes each) as text.
    /// The allocation ceiling applies to the `2 * char_count` bytes.
    pub fn read_fixed_ucs2(&mut self, char_count: usize) -> (r: Result<String, Error>)
        ensures
            (string_view(r), final(self).rest()) == fixed_ucs2_spec(
                old(self).rest(),
                old(self).max_alloc(),
                char_count as nat,
            ),
            final(self).max_alloc() == old(self).max_alloc(),
    {
        if char_count > self.max_alloc_bytes() / 2 {
            return Err(Error::AllocLimit);
        }
        match self.read_fixed_bytes(char_count * 2) {
            Ok(b) => decode_ucs2(b.as_slice()),
            Err(e) => Err(e),
        }
    }

    /// Reads a count of type `E` in the order `end`, then that many UCS-2
    /// units as text. Only the count's byte order is chosen: the units are
    /// always big-endian.
    pub fn read_pref_ucs2<E: ReadEndian>(&mut self, end: End) -> (r: Result<String, Error>)
        ensures
            (string_view(r), final(self).rest()) == pref_ucs2_spec::<E>(
                old(self).rest(),
                old(self).max_alloc(),
                end,
            ),
            final(self).max_alloc() == old(self).max_alloc(),
    {
        match self.read_m::<E>(end) {
            Ok(p) => {
                let count = p.into_usize();
                self.read_fixed_ucs2(count)
            },
            Err(e) => Err(e),
        }
    }

    /// Reads a C-style string: the bytes before the next zero byte, which is
    /// consumed and left out of the result. The input ending first is an
    /// unexpected end of input.
    pub fn read_cstr_bytes(&mut self) -> (r: Result<Vec<u8>, Error>)
        ensures
            (bytes_view(r), final(self).rest()) == cstr_spec(old(self).rest()),
            final(self).max_alloc() == old(self).max_alloc(),
    {
        let mut buf = self.read_until(0);
        let n = buf.len();
        if n == 0 || buf[n - 1] != 0 {
            proof {
                let s = old(self).rest();
                if delim_pos(s, 0) < s.len() {
                    lemma_delim_found(s, 0);
                    assert(buf@[n - 1] == s[delim_pos(s, 0) as int]);
                }
            }
            return Err(Error::UnexpectedEof);
        }
        buf.pop();
        proof {
            let s = old(self).rest();
            if delim_pos(s, 0) >= s.len() {
                lemma_no_delim(s, 0);
            }
            assert(buf@ =~= s.take(delim_pos(s, 0) as int));
        }
        Ok(buf)
    }

    /// Reads a C-style string (see `read_cstr_bytes`) as UTF-8 text.
    pub fn read_cstr_utf8(&mut self) -> (r: Result<String, Error>)
        ensures
            string_view(r) == utf8_spec(cstr_spec(old(self).rest()).0),
            final(self).rest() == cstr_spec(old(self).rest()).1,
            final(self).max_alloc() == old(self).max_alloc(),
    {
        match self.read_cstr_bytes() {
            Ok(b) => bytes2utf8(b),
            Err(e) => Err(e),
        }
    }

    /// Reads one line of UTF-8 text: up to and including the next `\n`, or
    /// to the end of the input, which ends a line without failing.
    pub fn read_line_utf8(&mut self) -> (r: Result<String, Error>)
        ensures
            string_view(r) == utf8_spec(Ok(until_spec(old(self).rest(), 10).0)),
            final(self).rest() == until_spec(old(self).rest(), 10).1,
            final(self).max_alloc() == old(self).max_alloc(),
    {
        let buf = self.read_until(10);
        bytes2utf8(buf)
    }

    /// Reads bytes up to and including the next `delim`, or to the end of
    /// the input; the bytes are returned as they are.
    pub fn read_delim_bytes(&mut self, delim: u8) -> (r: Result<Vec<u8>, Error>)
        ensures
            bytes_view(r) == Ok::<Seq<u8>, Error>(until_spec(old(self).rest(), delim).0),
            final(self).rest() == until_spec(old(self).rest(), delim).1,
            final(self).max_alloc() == old(self).max_alloc(),
    {
        Ok(self.read_until(delim))
    }
}

/// A scan that stops inside `s` stops on a `d`.
proof fn lemma_delim_found(s: Seq<u8>, d: u8)
    requires
        delim_pos(s, d) < s.len(),
    ensures
        s[delim_pos(s, d) as int] == d,
    decreases s.len(),
{
    if s.len() > 0 && s[0] != d {
        lemma_delim_found(s.drop_first(), d);
    }
}

/// With no `d` in `s`, the scan covers all of `s`, and its last byte is not `d`.
proof fn lemma_no_delim(s: Seq<u8>, d: u8)
    requires
        delim_pos(s, d) >= s.len(),
    ensures
        forall|k: int| 0 <= k < s.len() ==> s[k] != d,
    decreases s.len(),
{
    if s.len() > 0 {
        lemma_no_delim(s.drop_first(), d);
        assert forall|k: int| 0 <= k < s.len() implies s[k] != d by {
            if k > 0 {
                assert(s[k] == s.drop_first()[k - 1]);
            }
        }
    }
}

} // verus!
