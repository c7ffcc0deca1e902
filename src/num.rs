use crate::endian::End;
use crate::error::Error;
use crate::muncher::{take_spec, Muncher};
use vstd::prelude::*;

verus! {

/// `256` to the power `n`: the number of values `n` bytes can hold.
pub open spec fn byte_range(n: nat) -> nat
    decreases n,
{
    if n == 0 {
        1
    } else {
        256 * byte_range((n - 1) as nat)
    }
}

/// The unsigned value of `b` read least significant byte first.
pub open spec fn le_uint(b: Seq<u8>) -> nat
    decreases b.len(),
{
    if b.len() == 0 {
        0
    } else {
        b[0] as nat + 256 * le_uint(b.drop_first())
    }
}

/// The unsigned value of `b` read most significant byte first.
pub open spec fn be_uint(b: Seq<u8>) -> nat
    decreases b.len(),
{
    if b.len() == 0 {
        0
    } else {
        256 * be_uint(b.drop_last()) + b.last() as nat
    }
}

/// The unsigned value of `b` in the given byte order.
pub open spec fn uint_of(b: Seq<u8>, le: bool) -> nat {
    if le {
        le_uint(b)
    } else {
        be_uint(b)
    }
}

/// The value of `b` in the given byte order, as two's complement when `signed`.
pub open spec fn int_of_bytes(b: Seq<u8>, signed: bool, le: bool) -> int {
    let u = uint_of(b, le);
    if signed && 2 * u >= byte_range(b.len()) {
        u - byte_range(b.len())
    } else {
        u as int
    }
}

/// The `n` bytes of the unsigned value `v`, least significant first.
pub open spec fn le_bytes(v: nat, n: nat) -> Seq<u8>
    decreases n,
{
    if n == 0 {
        Seq::empty()
    } else {
        seq![(v % 256) as u8] + le_bytes(v / 256, (n - 1) as nat)
    }
}

/// The `n` bytes of the unsigned value `v`, most significant first.
pub open spec fn be_bytes(v: nat, n: nat) -> Seq<u8>
    decreases n,
{
    if n == 0 {
        Seq::empty()
    } else {
        be_bytes(v / 256, (n - 1) as nat).push((v % 256) as u8)
    }
}

/// True when `v` fits in `n` bytes, as two's complement when `signed`.
pub open spec fn fits(v: int, n: nat, signed: bool) -> bool {
    if signed {
        -(byte_range(n) as int) <= 2 * v < byte_range(n)
    } else {
        0 <= v < byte_range(n)
    }
}

/// The `n` bytes that store `v` in the given byte order.
pub open spec fn bytes_of_int(v: int, n: nat, le: bool) -> Seq<u8> {
    let u = if v < 0 {
        (v + byte_range(n)) as nat
    } else {
        v as nat
    };
    if le {
        le_bytes(u, n)
    } else {
        be_bytes(u, n)
    }
}

proof fn lemma_byte_range_pos(n: nat)
    ensures
        byte_range(n) >= 1,
    decreases n,
{
    if n > 0 {
        lemma_byte_range_pos((n - 1) as nat);
    }
}

proof fn lemma_byte_range_mono(a: nat, b: nat)
    requires
        a <= b,
    ensures
        byte_range(a) <= byte_range(b),
    decreases b,
{
    lemma_byte_range_pos(b);
    if a < b {
        lemma_byte_range_mono(a, (b - 1) as nat);
    }
}

proof fn lemma_le_uint_bound(b: Seq<u8>)
    ensures
        le_uint(b) < byte_range(b.len()),
    decreases b.len(),
{
    if b.len() > 0 {
        lemma_le_uint_bound(b.drop_first());
    }
}

proof fn lemma_be_uint_bound(b: Seq<u8>)
    ensures
        be_uint(b) < byte_range(b.len()),
    decreases b.len(),
{
    if b.len() > 0 {
        lemma_be_uint_bound(b.drop_last());
    }
}

/// Every unsigned reading of `b` lies below `256` to the power of its length.
pub proof fn lemma_uint_bound(b: Seq<u8>, le: bool)
    ensures
        uint_of(b, le) < byte_range(b.len()),
{
    lemma_le_uint_bound(b);
    lemma_be_uint_bound(b);
}

proof fn lemma_le_round_trip(v: nat, n: nat)
    requires
        v < byte_range(n),
    ensures
        le_bytes(v, n).len() == n,
        le_uint(le_bytes(v, n)) == v,
    decreases n,
{
    if n > 0 {
        let b = le_bytes(v, n);
        assert(v / 256 < byte_range((n - 1) as nat));
        lemma_le_round_trip(v / 256, (n - 1) as nat);
        assert(b.drop_first() =~= le_bytes(v / 256, (n - 1) as nat));
    }
}

proof fn lemma_be_round_trip(v: nat, n: nat)
    requires
        v < byte_range(n),
    ensures
        be_bytes(v, n).len() == n,
        be_uint(be_bytes(v, n)) == v,
    decreases n,
{
    if n > 0 {
        let b = be_bytes(v, n);
        assert(v / 256 < byte_range((n - 1) as nat));
        lemma_be_round_trip(v / 256, (n - 1) as nat);
        assert(b.drop_last() =~= be_bytes(v / 256, (n - 1) as nat));
    }
}

/// Decoding is the inverse of encoding: for any value that fits in `n`
/// bytes (signed or unsigned), storing it in either byte order and reading
/// the bytes back in that same order gives the value again.
pub proof fn lemma_round_trip(v: int, n: nat, signed: bool, le: bool)
    requires
        n >= 1,
        fits(v, n, signed),
    ensures
        bytes_of_int(v, n, le).len() == n,
        int_of_bytes(bytes_of_int(v, n, le), signed, le) == v,
{
    let u = if v < 0 {
        (v + byte_range(n)) as nat
    } else {
        v as nat
    };
    assert(byte_range(n) == 256 * byte_range((n - 1) as nat));
    lemma_byte_range_pos((n - 1) as nat);
    lemma_le_round_trip(u, n);
    lemma_be_round_trip(u, n);
}

proof fn lemma_byte_range_values()
    ensures
        byte_range(1) == 0x100,
        byte_range(2) == 0x1_0000,
        byte_range(4) == 0x1_0000_0000,
        byte_range(8) == 0x1_0000_0000_0000_0000,
        byte_range(15) == 0x100_0000_0000_0000_0000_0000_0000_0000,
        byte_range(16) == 0x1_0000_0000_0000_0000_0000_0000_0000_0000,
{
    reveal_with_fuel(byte_range, 17);
}

/// Reads `b` as an unsigned number in the given byte order.
fn decode_uint(b: &[u8], le: bool) -> (r: u128)
    requires
        b@.len() <= 16,
    ensures
        r as nat == uint_of(b@, le),
{
    let n = b.len();
    let mut acc: u128 = 0;
    proof {
        lemma_byte_range_values();
    }
    if le {
        let mut i: usize = n;
        assert(b@.subrange(n as int, n as int) =~= Seq::<u8>::empty());
        while i > 0
            invariant
                i <= n,
                n == b@.len(),
                n <= 16,
                byte_range(15) == 0x100_0000_0000_0000_0000_0000_0000_0000,
                acc as nat == le_uint(b@.subrange(i as int, n as int)),
            decreases i,
        {
            i = i - 1;
            let ghost tail = b@.subrange(i + 1, n as int);
            proof {
                lemma_le_uint_bound(tail);
                lemma_byte_range_mono(tail.len(), 15);
                assert(b@.subrange(i as int, n as int).drop_first() =~= tail);
                assert(acc * 256 + 255 < 0x1_0000_0000_0000_0000_0000_0000_0000_0000) by (nonlinear_arith)
                    requires
                        acc < 0x100_0000_0000_0000_0000_0000_0000_0000,
                ;
            }
            acc = acc * 256 + b[i] as u128;
        }
        assert(b@.subrange(0, n as int) =~= b@);
    } else {
        let mut i: usize = 0;
        assert(b@.subrange(0, 0) =~= Seq::<u8>::empty());
        while i < n
            invariant
                i <= n,
                n == b@.len(),
                n <= 16,
                byte_range(15) == 0x100_0000_0000_0000_0000_0000_0000_0000,
                acc as nat == be_uint(b@.subrange(0, i as int)),
            decreases n - i,
        {
            let ghost head = b@.subrange(0, i as int);
            proof {
                lemma_be_uint_bound(head);
                lemma_byte_range_mono(head.len(), 15);
                assert(b@.subrange(0, i + 1).drop_last() =~= head);
                assert(acc * 256 + 255 < 0x1_0000_0000_0000_0000_0000_0000_0000_0000) by (nonlinear_arith)
                    requires
                        acc < 0x100_0000_0000_0000_0000_0000_0000_0000,
                ;
            }
            acc = acc * 256 + b[i] as u128;
            i = i + 1;
        }
        assert(b@.subrange(0, n as int) =~= b@);
    }
    acc
}

/// Takes `n` bytes from `src` and reads them as an unsigned number in the
/// order `end`.
fn read_uint(src: &mut Muncher, n: usize, end: End) -> (r: Result<u128, Error>)
    requires
        1 <= n <= 16,
    ensures
        final(src).max_alloc() == old(src).max_alloc(),
        final(src).rest() == take_spec(old(src).rest(), n as nat).1,
        n <= old(src).rest().len() ==> r == Ok::<u128, Error>(
            uint_of(old(src).rest().take(n as int), end.spec_is_le()) as u128,
        ),
        n > old(src).rest().len() ==> r == Err::<u128, Error>(Error::UnexpectedEof),
        n <= old(src).rest().len() ==> uint_of(old(src).rest().take(n as int), end.spec_is_le())
            < byte_range(n as nat),
{
    proof {
        if n <= src.rest().len() {
            lemma_uint_bound(src.rest().take(n as int), end.spec_is_le());
        }
    }
    match src.take_bytes(n) {
        Ok(b) => {
            let le = end.is_le();
            let u = decode_uint(b.as_slice(), le);
            proof {
                lemma_uint_bound(b@, le);
            }
            Ok(u)
        },
        Err(e) => Err(e),
    }
}

/// A fixed-width numeric type that can decode itself from bytes in a
/// chosen byte order.
pub trait ReadEndian: Sized {
    /// The number of bytes one value occupies.
    spec fn byte_width() -> nat;

    /// The value that `b` (of `byte_width()` bytes) stands for in the given order.
    spec fn spec_decode(b: Seq<u8>, le: bool) -> Self;

    /// The value taken as a length or a count (a truncating cast).
    spec fn spec_into_usize(self) -> usize;

    /// Whether the type stores two's complement values.
    spec fn is_signed() -> bool;

    /// The value as a mathematical integer.
    spec fn as_int(self) -> int;

    /// Decoding gives the integer that the bytes stand for.
    proof fn lemma_decode(b: Seq<u8>, le: bool)
        requires
            b.len() == Self::byte_width(),
        ensures
            Self::spec_decode(b, le).as_int() == int_of_bytes(b, Self::is_signed(), le),
    ;

    /// Every value fits in the type's width.
    proof fn lemma_fits(self)
        ensures
            Self::byte_width() >= 1,
            fits(self.as_int(), Self::byte_width(), Self::is_signed()),
    ;

    /// Values with the same integer are the same value.
    proof fn lemma_as_int_injective(self, other: Self)
        ensures
            self.as_int() == other.as_int() ==> self == other,
    ;

    /// Takes `byte_width()` bytes from `src` and decodes them in the order
    /// `end`; single-byte types ignore `end`.
    fn read_endian(src: &mut Muncher, end: End) -> (r: Result<Self, Error>)
        ensures
            Self::byte_width() <= old(src).rest().len() ==> r == Ok::<Self, Error>(
                Self::spec_decode(
                    old(src).rest().take(Self::byte_width() as int),
                    end.spec_is_le(),
                ),
            ) && final(src).rest() == old(src).rest().skip(Self::byte_width() as int),
            Self::byte_width() > old(src).rest().len() ==> r == Err::<Self, Error>(
                Error::UnexpectedEof,
            ) && final(src).rest() == Seq::<u8>::empty(),
            final(src).max_alloc() == old(src).max_alloc(),
    ;

    /// The value taken as a length or a count.
    fn into_usize(self) -> (r: usize)
        ensures
            r == self.spec_into_usize(),
    ;
}

/// What reading one `E` in the order `end` from `rest` yields, and the bytes
/// left after it.
pub open spec fn read_spec<E: ReadEndian>(rest: Seq<u8>, end: End) -> (Result<E, Error>, Seq<u8>) {
    let w = E::byte_width();
    if w <= rest.len() {
        (Ok(E::spec_decode(rest.take(w as int), end.spec_is_le())), rest.skip(w as int))
    } else {
        (Err(Error::UnexpectedEof), Seq::empty())
    }
}

impl ReadEndian for u8 {
    open spec fn is_signed() -> bool {
        false
    }

    open spec fn as_int(self) -> int {
        self as int
    }

    proof fn lemma_decode(b: Seq<u8>, le: bool) {
        lemma_uint_bound(b, le);
        lemma_byte_range_values();
    }

    proof fn lemma_fits(self) {
        lemma_byte_range_values();
    }

    proof fn lemma_as_int_injective(self, other: Self) {
    }

    open spec fn byte_width() -> nat {
        1
    }

    open spec fn spec_decode(b: Seq<u8>, le: bool) -> u8 {
        int_of_bytes(b, false, le) as u8
    }

    open spec fn spec_into_usize(self) -> usize {
        self as usize
    }

    fn read_endian(src: &mut Muncher, end: End) -> (r: Result<u8, Error>) {
        proof {
            lemma_byte_range_values();
        }
        match read_uint(src, 1, end) {
            Ok(u) => Ok(u as u8),
            Err(e) => Err(e),
        }
    }

    fn into_usize(self) -> (r: usize) {
        self as usize
    }
}

impl ReadEndian for i8 {
    open spec fn is_signed() -> bool {
        true
    }

    open spec fn as_int(self) -> int {
        self as int
    }

    proof fn lemma_decode(b: Seq<u8>, le: bool) {
        lemma_uint_bound(b, le);
        lemma_byte_range_values();
    }

    proof fn lemma_fits(self) {
        lemma_byte_range_values();
    }

    proof fn lemma_as_int_injective(self, other: Self) {
    }

    open spec fn byte_width() -> nat {
        1
    }

    open spec fn spec_decode(b: Seq<u8>, le: bool) -> i8 {
        int_of_bytes(b, true, le) as i8
    }

    open spec fn spec_into_usize(self) -> usize {
        self as usize
    }

    fn read_endian(src: &mut Muncher, end: End) -> (r: Result<i8, Error>) {
        proof {
            lemma_byte_range_values();
        }
        match read_uint(src, 1, end) {
            Ok(u) => Ok(
                if u >= 0x80 {
                    (u as i16 - 0x100) as i8
                } else {
                    u as i8
                },
            ),
            Err(e) => Err(e),
        }
    }

    fn into_usize(self) -> (r: usize) {
        #[verifier::truncate]
        (self as usize)
    }
}

impl ReadEndian for u16 {
    open spec fn is_signed() -> bool {
        false
    }

    open spec fn as_int(self) -> int {
        self as int
    }

    proof fn lemma_decode(b: Seq<u8>, le: bool) {
        lemma_uint_bound(b, le);
        lemma_byte_range_values();
    }

    proof fn lemma_fits(self) {
        lemma_byte_range_values();
    }

    proof fn lemma_as_int_injective(self, other: Self) {
    }

    open spec fn byte_width() -> nat {
        2
    }

    open spec fn spec_decode(b: Seq<u8>, le: bool) -> u16 {
        int_of_bytes(b, false, le) as u16
    }

    open spec fn spec_into_usize(self) -> usize {
        self as usize
    }

    fn read_endian(src: &mut Muncher, end: End) -> (r: Result<u16, Error>) {
        proof {
            lemma_byte_range_values();
        }
        match read_uint(src, 2, end) {
            Ok(u) => Ok(u as u16),
            Err(e) => Err(e),
        }
    }

    fn into_usize(self) -> (r: usize) {
        self as usize
    }
}

impl ReadEndian for i16 {
    open spec fn is_signed() -> bool {
        true
    }

    open spec fn as_int(self) -> int {
        self as int
    }

    proof fn lemma_decode(b: Seq<u8>, le: bool) {
        lemma_uint_bound(b, le);
        lemma_byte_range_values();
    }

    proof fn lemma_fits(self) {
        lemma_byte_range_values();
    }

    proof fn lemma_as_int_injective(self, other: Self) {
    }

    open spec fn byte_width() -> nat {
        2
    }

    open spec fn spec_decode(b: Seq<u8>, le: bool) -> i16 {
        int_of_bytes(b, true, le) as i16
    }

    open spec fn spec_into_usize(self) -> usize {
        self as usize
    }

    fn read_endian(src: &mut Muncher, end: End) -> (r: Result<i16, Error>) {
        proof {
            lemma_byte_range_values();
        }
        match read_uint(src, 2, end) {
            Ok(u) => Ok(
                if u >= 0x8000 {
                    (u as i32 - 0x1_0000) as i16
                } else {
                    u as i16
                },
            ),
            Err(e) => Err(e),
        }
    }

    fn into_usize(self) -> (r: usize) {
        #[verifier::truncate]
        (self as usize)
    }
}

impl ReadEndian for u32 {
    open spec fn is_signed() -> bool {
        false
    }

    open spec fn as_int(self) -> int {
        self as int
    }

    proof fn lemma_decode(b: Seq<u8>, le: bool) {
        lemma_uint_bound(b, le);
        lemma_byte_range_values();
    }

    proof fn lemma_fits(self) {
        lemma_byte_range_values();
    }

    proof fn lemma_as_int_injective(self, other: Self) {
    }

    open spec fn byte_width() -> nat {
        4
    }

    open spec fn spec_decode(b: Seq<u8>, le: bool) -> u32 {
        int_of_bytes(b, false, le) as u32
    }

    open spec fn spec_into_usize(self) -> usize {
        self as usize
    }

    fn read_endian(src: &mut Muncher, end: End) -> (r: Result<u32, Error>) {
        proof {
            lemma_byte_range_values();
        }
        match read_uint(src, 4, end) {
            Ok(u) => Ok(u as u32),
            Err(e) => Err(e),
        }
    }

    fn into_usize(self) -> (r: usize) {
        self as usize
    }
}

impl ReadEndian for i32 {
    open spec fn is_signed() -> bool {
        true
    }

    open spec fn as_int(self) -> int {
        self as int
    }

    proof fn lemma_decode(b: Seq<u8>, le: bool) {
        lemma_uint_bound(b, le);
        lemma_byte_range_values();
    }

    proof fn lemma_fits(self) {
        lemma_byte_range_values();
    }

    proof fn lemma_as_int_injective(self, other: Self) {
    }

    open spec fn byte_width() -> nat {
        4
    }

    open spec fn spec_decode(b: Seq<u8>, le: bool) -> i32 {
        int_of_bytes(b, true, le) as i32
    }

    open spec fn spec_into_usize(self) -> usize {
        self as usize
    }

    fn read_endian(src: &mut Muncher, end: End) -> (r: Result<i32, Error>) {
        proof {
            lemma_byte_range_values();
        }
        match read_uint(src, 4, end) {
            Ok(u) => Ok(
                if u >= 0x8000_0000 {
                    (u as i64 - 0x1_0000_0000) as i32
                } else {
                    u as i32
                },
            ),
            Err(e) => Err(e),
        }
    }

    fn into_usize(self) -> (r: usize) {
        #[verifier::truncate]
        (self as usize)
    }
}

impl ReadEndian for u64 {
    open spec fn is_signed() -> bool {
        false
    }

    open spec fn as_int(self) -> int {
        self as int
    }

    proof fn lemma_decode(b: Seq<u8>, le: bool) {
        lemma_uint_bound(b, le);
        lemma_byte_range_values();
    }

    proof fn lemma_fits(self) {
        lemma_byte_range_values();
    }

    proof fn lemma_as_int_injective(self, other: Self) {
    }

    open spec fn byte_width() -> nat {
        8
    }

    open spec fn spec_decode(b: Seq<u8>, le: bool) -> u64 {
        int_of_bytes(b, false, le) as u64
    }

    open spec fn spec_into_usize(self) -> usize {
        self as usize
    }

    fn read_endian(src: &mut Muncher, end: End) -> (r: Result<u64, Error>) {
        proof {
            lemma_byte_range_values();
        }
        match read_uint(src, 8, end) {
            Ok(u) => Ok(u as u64),
            Err(e) => Err(e),
        }
    }

    fn into_usize(self) -> (r: usize) {
        #[verifier::truncate]
        (self as usize)
    }
}

impl ReadEndian for i64 {
    open spec fn is_signed() -> bool {
        true
    }

    open spec fn as_int(self) -> int {
        self as int
    }

    proof fn lemma_decode(b: Seq<u8>, le: bool) {
        lemma_uint_bound(b, le);
        lemma_byte_range_values();
    }

    proof fn lemma_fits(self) {
        lemma_byte_range_values();
    }

    proof fn lemma_as_int_injective(self, other: Self) {
    }

    open spec fn byte_width() -> nat {
        8
    }

    open spec fn spec_decode(b: Seq<u8>, le: bool) -> i64 {
        int_of_bytes(b, true, le) as i64
    }

    open spec fn spec_into_usize(self) -> usize {
        self as usize
    }

    fn read_endian(src: &mut Muncher, end: End) -> (r: Result<i64, Error>) {
        proof {
            lemma_byte_range_values();
        }
        match read_uint(src, 8, end) {
            Ok(u) => Ok(
                if u >= 0x8000_0000_0000_0000 {
                    (u as i128 - 0x1_0000_0000_0000_0000) as i64
                } else {
                    u as i64
                },
            ),
            Err(e) => Err(e),
        }
    }

    fn into_usize(self) -> (r: usize) {
        #[verifier::truncate]
        (self as usize)
    }
}

impl ReadEndian for u128 {
    open spec fn is_signed() -> bool {
        false
    }

    open spec fn as_int(self) -> int {
        self as int
    }

    proof fn lemma_decode(b: Seq<u8>, le: bool) {
        lemma_uint_bound(b, le);
        lemma_byte_range_values();
    }

    proof fn lemma_fits(self) {
        lemma_byte_range_values();
    }

    proof fn lemma_as_int_injective(self, other: Self) {
    }

    open spec fn byte_width() -> nat {
        16
    }

    open spec fn spec_decode(b: Seq<u8>, le: bool) -> u128 {
        int_of_bytes(b, false, le) as u128
    }

    open spec fn spec_into_usize(self) -> usize {
        self as usize
    }

    fn read_endian(src: &mut Muncher, end: End) -> (r: Result<u128, Error>) {
        read_uint(src, 16, end)
    }

    fn into_usize(self) -> (r: usize) {
        #[verifier::truncate]
        (self as usize)
    }
}

impl ReadEndian for i128 {
    open spec fn is_signed() -> bool {
        true
    }

    open spec fn as_int(self) -> int {
        self as int
    }

    proof fn lemma_decode(b: Seq<u8>, le: bool) {
        lemma_uint_bound(b, le);
        lemma_byte_range_values();
    }

    proof fn lemma_fits(self) {
        lemma_byte_range_values();
    }

    proof fn lemma_as_int_injective(self, other: Self) {
    }

    open spec fn byte_width() -> nat {
        16
    }

    open spec fn spec_decode(b: Seq<u8>, le: bool) -> i128 {
        int_of_bytes(b, true, le) as i128
    }

    open spec fn spec_into_usize(self) -> usize {
        self as usize
    }

    fn read_endian(src: &mut Muncher, end: End) -> (r: Result<i128, Error>) {
        proof {
            lemma_byte_range_values();
        }
        match read_uint(src, 16, end) {
            Ok(u) => Ok(
                if u >= 0x8000_0000_0000_0000_0000_0000_0000_0000 {
                    -((u128::MAX - u) as i128) - 1
                } else {
                    u as i128
                },
            ),
            Err(e) => Err(e),
        }
    }

    fn into_usize(self) -> (r: usize) {
        #[verifier::truncate]
        (self as usize)
    }
}

/// Reading a value back from the bytes that store it: for every numeric
/// type, every value `x` and every byte order, the bytes of `x` followed by
/// anything read back as `x` and leave exactly what followed.
pub proof fn lemma_read_round_trip<E: ReadEndian>(x: E, end: End, tail: Seq<u8>)
    ensures
        read_spec::<E>(bytes_of_int(x.as_int(), E::byte_width(), end.spec_is_le()) + tail, end)
            == (Ok::<E, Error>(x), tail),
{
    let w = E::byte_width();
    let le = end.spec_is_le();
    x.lemma_fits();
    lemma_round_trip(x.as_int(), w, E::is_signed(), le);
    let b = bytes_of_int(x.as_int(), w, le);
    let s = b + tail;
    assert(s.take(w as int) =~= b);
    assert(s.skip(w as int) =~= tail);
    E::lemma_decode(b, le);
    E::spec_decode(b, le).lemma_as_int_injective(x);
}

} // verus!
