use crate::endian::{host_end, End};
use crate::error::Error;
use crate::muncher::Muncher;
use crate::num::{read_spec, ReadEndian};
use vstd::prelude::*;

verus! {

/// Reading under `Native` order is reading under the host's concrete order,
/// for every numeric type and every input.
pub proof fn lemma_native_is_host<E: ReadEndian>(rest: Seq<u8>)
    ensures
        read_spec::<E>(rest, End::Native) == read_spec::<E>(rest, host_end()),
{
}

/// The single-byte values `0x00` and `0x01` as booleans.
pub open spec fn bool_spec(b: u8) -> Result<bool, Error> {
    if b == 0 {
        Ok(false)
    } else if b == 1 {
        Ok(true)
    } else {
        Err(Error::InvalidBool(b))
    }
}

impl Muncher {
    /// Reads one value of a numeric type in the byte order `end`.
    pub fn read_m<E: ReadEndian>(&mut self, end: End) -> (r: Result<E, Error>)
        ensures
            (r, final(self).rest()) == read_spec::<E>(old(self).rest(), end),
            final(self).max_alloc() == old(self).max_alloc(),
    {
        E::read_endian(self, end)
    }

    /// Reads one value of a numeric type, least significant byte first.
    pub fn read_le<E: ReadEndian>(&mut self) -> (r: Result<E, Error>)
        ensures
            (r, final(self).rest()) == read_spec::<E>(old(self).rest(), End::Little),
            final(self).max_alloc() == old(self).max_alloc(),
    {
        self.read_m(End::Little)
    }

    /// Reads one value of a numeric type, most significant byte first.
    pub fn read_be<E: ReadEndian>(&mut self) -> (r: Result<E, Error>)
        ensures
            (r, final(self).rest()) == read_spec::<E>(old(self).rest(), End::Big),
            final(self).max_alloc() == old(self).max_alloc(),
    {
        self.read_m(End::Big)
    }

    /// Reads one value of a numeric type in the target machine's byte order.
    pub fn read_ne<E: ReadEndian>(&mut self) -> (r: Result<E, Error>)
        ensures
            (r, final(self).rest()) == read_spec::<E>(old(self).rest(), End::Native),
            final(self).max_alloc() == old(self).max_alloc(),
    {
        self.read_m(End::Native)
    }

    /// Reads an unsigned byte.
    pub fn read_u8(&mut self) -> (r: Result<u8, Error>)
        ensures
            old(self).rest().len() == 0 ==> r == Err::<u8, Error>(Error::UnexpectedEof)
                && final(self).rest() == old(self).rest(),
            old(self).rest().len() > 0 ==> r == Ok::<u8, Error>(old(self).rest()[0])
                && final(self).rest() == old(self).rest().skip(1),
            final(self).max_alloc() == old(self).max_alloc(),
    {
        let r = self.read_m::<u8>(End::Little);
        proof {
            let rest = old(self).rest();
            if rest.len() > 0 {
                let b = rest.take(1);
                assert(b.drop_first() =~= Seq::<u8>::empty());
                assert(b[0] == rest[0]);
                assert(crate::num::le_uint(b.drop_first()) == 0);
                assert(crate::num::le_uint(b) == b[0]);
            } else {
                assert(rest =~= Seq::<u8>::empty());
            }
        }
        r
    }

    /// Reads a signed byte.
    pub fn read_i8(&mut self) -> (r: Result<i8, Error>)
        ensures
            (r, final(self).rest()) == read_spec::<i8>(old(self).rest(), End::Little),
            final(self).max_alloc() == old(self).max_alloc(),
    {
        self.read_m::<i8>(End::Little)
    }

    /// Reads a strict boolean: `0x00` is false, `0x01` is true, and any
    /// other byte is invalid data.
    pub fn read_bool(&mut self) -> (r: Result<bool, Error>)
        ensures
            old(self).rest().len() == 0 ==> r == Err::<bool, Error>(Error::UnexpectedEof)
                && final(self).rest() == old(self).rest(),
            old(self).rest().len() > 0 ==> r == bool_spec(old(self).rest()[0])
                && final(self).rest() == old(self).rest().skip(1),
            final(self).max_alloc() == old(self).max_alloc(),
    {
        match self.read_u8() {
            Ok(0u8) => Ok(false),
            Ok(1u8) => Ok(true),
            Ok(b) => Err(Error::InvalidBool(b)),
            Err(e) => Err(e),
        }
    }

    /// Reads a `u16`, least significant byte first.
    pub fn read_u16_le(&mut self) -> (r: Result<u16, Error>)
        ensures
            (r, final(self).rest()) == read_spec::<u16>(old(self).rest(), End::Little),
            final(self).max_alloc() == old(self).max_alloc(),
    {
        self.read_m::<u16>(End::Little)
    }

    /// Reads a `u16`, most significant byte first.
    pub fn read_u16_be(&mut self) -> (r: Result<u16, Error>)
        ensures
            (r, final(self).rest()) == read_spec::<u16>(old(self).rest(), End::Big),
            final(self).max_alloc() == old(self).max_alloc(),
    {
        self.read_m::<u16>(End::Big)
    }

    /// Reads a `u16`, in the target machine's byte order.
    pub fn read_u16_ne(&mut self) -> (r: Result<u16, Error>)
        ensures
            (r, final(self).rest()) == read_spec::<u16>(old(self).rest(), End::Native),
            final(self).max_alloc() == old(self).max_alloc(),
    {
        self.read_m::<u16>(End::Native)
    }

    /// Reads a `u16` in the byte order `end`.
    pub fn read_u16_endian(&mut self, end: End) -> (r: Result<u16, Error>)
        ensures
            (r, final(self).rest()) == read_spec::<u16>(old(self).rest(), end),
            final(self).max_alloc() == old(self).max_alloc(),
    {
        self.read_m::<u16>(end)
    }

    /// Reads a `i16`, least significant byte first.
    pub fn read_i16_le(&mut self) -> (r: Result<i16, Error>)
        ensures
            (r, final(self).rest()) == read_spec::<i16>(old(self).rest(), End::Little),
            final(self).max_alloc() == old(self).max_alloc(),
    {
        self.read_m::<i16>(End::Little)
    }

    /// Reads a `i16`, most significant byte first.
    pub fn read_i16_be(&mut self) -> (r: Result<i16, Error>)
        ensures
            (r, final(self).rest()) == read_spec::<i16>(old(self).rest(), End::Big),
            final(self).max_alloc() == old(self).max_alloc(),
    {
        self.read_m::<i16>(End::Big)
    }

    /// Reads a `i16`, in the target machine's byte order.
    pub fn read_i16_ne(&mut self) -> (r: Result<i16, Error>)
        ensures
            (r, final(self).rest()) == read_spec::<i16>(old(self).rest(), End::Native),
            final(self).max_alloc() == old(self).max_alloc(),
    {
        self.read_m::<i16>(End::Native)
    }

    /// Reads a `i16` in the byte order `end`.
    pub fn read_i16_endian(&mut self, end: End) -> (r: Result<i16, Error>)
        ensures
            (r, final(self).rest()) == read_spec::<i16>(old(self).rest(), end),
            final(self).max_alloc() == old(self).max_alloc(),
    {
        self.read_m::<i16>(end)
    }

    /// Reads a `u32`, least significant byte first.
    pub fn read_u32_le(&mut self) -> (r: Result<u32, Error>)
        ensures
            (r, final(self).rest()) == read_spec::<u32>(old(self).rest(), End::Little),
            final(self).max_alloc() == old(self).max_alloc(),
    {
        self.read_m::<u32>(End::Little)
    }

    /// Reads a `u32`, most significant byte first.
    pub fn read_u32_be(&mut self) -> (r: Result<u32, Error>)
        ensures
            (r, final(self).rest()) == read_spec::<u32>(old(self).rest(), End::Big),
            final(self).max_alloc() == old(self).max_alloc(),
    {
        self.read_m::<u32>(End::Big)
    }

    /// Reads a `u32`, in the target machine's byte order.
    pub fn read_u32_ne(&mut self) -> (r: Result<u32, Error>)
        ensures
            (r, final(self).rest()) == read_spec::<u32>(old(self).rest(), End::Native),
            final(self).max_alloc() == old(self).max_alloc(),
    {
        self.read_m::<u32>(End::Native)
    }

    /// Reads a `u32` in the byte order `end`.
    pub fn read_u32_endian(&mut self, end: End) -> (r: Result<u32, Error>)
        ensures
            (r, final(self).rest()) == read_spec::<u32>(old(self).rest(), end),
            final(self).max_alloc() == old(self).max_alloc(),
    {
        self.read_m::<u32>(end)
    }

    /// Reads a `i32`, least significant byte first.
    pub fn read_i32_le(&mut self) -> (r: Result<i32, Error>)
        ensures
            (r, final(self).rest()) == read_spec::<i32>(old(self).rest(), End::Little),
            final(self).max_alloc() == old(self).max_alloc(),
    {
        self.read_m::<i32>(End::Little)
    }

    /// Reads a `i32`, most significant byte first.
    pub fn read_i32_be(&mut self) -> (r: Result<i32, Error>)
        ensures
            (r, final(self).rest()) == read_spec::<i32>(old(self).rest(), End::Big),
            final(self).max_alloc() == old(self).max_alloc(),
    {
        self.read_m::<i32>(End::Big)
    }

    /// Reads a `i32`, in the target machine's byte order.
    pub fn read_i32_ne(&mut self) -> (r: Result<i32, Error>)
        ensures
            (r, final(self).rest()) == read_spec::<i32>(old(self).rest(), End::Native),
            final(self).max_alloc() == old(self).max_alloc(),
    {
        self.read_m::<i32>(End::Native)
    }

    /// Reads a `i32` in the byte order `end`.
    pub fn read_i32_endian(&mut self, end: End) -> (r: Result<i32, Error>)
        ensures
            (r, final(self).rest()) == read_spec::<i32>(old(self).rest(), end),
            final(self).max_alloc() == old(self).max_alloc(),
    {
        self.read_m::<i32>(end)
    }

    /// Reads a `u64`, least significant byte first.
    pub fn read_u64_le(&mut self) -> (r: Result<u64, Error>)
        ensures
            (r, final(self).rest()) == read_spec::<u64>(old(self).rest(), End::Little),
            final(self).max_alloc() == old(self).max_alloc(),
    {
        self.read_m::<u64>(End::Little)
    }

    /// Reads a `u64`, most significant byte first.
    pub fn read_u64_be(&mut self) -> (r: Result<u64, Error>)
        ensures
            (r, final(self).rest()) == read_spec::<u64>(old(self).rest(), End::Big),
            final(self).max_alloc() == old(self).max_alloc(),
    {
        self.read_m::<u64>(End::Big)
    }

    /// Reads a `u64`, in the target machine's byte order.
    pub fn read_u64_ne(&mut self) -> (r: Result<u64, Error>)
        ensures
            (r, final(self).rest()) == read_spec::<u64>(old(self).rest(), End::Native),
            final(self).max_alloc() == old(self).max_alloc(),
    {
        self.read_m::<u64>(End::Native)
    }

    /// Reads a `u64` in the byte order `end`.
    pub fn read_u64_endian(&mut self, end: End) -> (r: Result<u64, Error>)
        ensures
            (r, final(self).rest()) == read_spec::<u64>(old(self).rest(), end),
            final(self).max_alloc() == old(self).max_alloc(),
    {
        self.read_m::<u64>(end)
    }

    /// Reads a `i64`, least significant byte first.
    pub fn read_i64_le(&mut self) -> (r: Result<i64, Error>)
        ensures
            (r, final(self).rest()) == read_spec::<i64>(old(self).rest(), End::Little),
            final(self).max_alloc() == old(self).max_alloc(),
    {
        self.read_m::<i64>(End::Little)
    }

    /// Reads a `i64`, most significant byte first.
    pub fn read_i64_be(&mut self) -> (r: Result<i64, Error>)
        ensures
            (r, final(self).rest()) == read_spec::<i64>(old(self).rest(), End::Big),
            final(self).max_alloc() == old(self).max_alloc(),
    {
        self.read_m::<i64>(End::Big)
    }

    /// Reads a `i64`, in the target machine's byte order.
    pub fn read_i64_ne(&mut self) -> (r: Result<i64, Error>)
        ensures
            (r, final(self).rest()) == read_spec::<i64>(old(self).rest(), End::Native),
            final(self).max_alloc() == old(self).max_alloc(),
    {
        self.read_m::<i64>(End::Native)
    }

    /// Reads a `i64` in the byte order `end`.
    pub fn read_i64_endian(&mut self, end: End) -> (r: Result<i64, Error>)
        ensures
            (r, final(self).rest()) == read_spec::<i64>(old(self).rest(), end),
            final(self).max_alloc() == old(self).max_alloc(),
    {
        self.read_m::<i64>(end)
    }

    /// Reads a `u128`, least significant byte first.
    pub fn read_u128_le(&mut self) -> (r: Result<u128, Error>)
        ensures
            (r, final(self).rest()) == read_spec::<u128>(old(self).rest(), End::Little),
            final(self).max_alloc() == old(self).max_alloc(),
    {
        self.read_m::<u128>(End::Little)
    }

    /// Reads a `u128`, most significant byte first.
    pub fn read_u128_be(&mut self) -> (r: Result<u128, Error>)
        ensures
            (r, final(self).rest()) == read_spec::<u128>(old(self).rest(), End::Big),
            final(self).max_alloc() == old(self).max_alloc(),
    {
        self.read_m::<u128>(End::Big)
    }

    /// Reads a `u128`, in the target machine's byte order.
    pub fn read_u128_ne(&mut self) -> (r: Result<u128, Error>)
        ensures
            (r, final(self).rest()) == read_spec::<u128>(old(self).rest(), End::Native),
            final(self).max_alloc() == old(self).max_alloc(),
    {
        self.read_m::<u128>(End::Native)
    }

    /// Reads a `u128` in the byte order `end`.
    pub fn read_u128_endian(&mut self, end: End) -> (r: Result<u128, Error>)
        ensures
            (r, final(self).rest()) == read_spec::<u128>(old(self).rest(), end),
            final(self).max_alloc() == old(self).max_alloc(),
    {
        self.read_m::<u128>(end)
    }

    /// Reads a `i128`, least significant byte first.
    pub fn read_i128_le(&mut self) -> (r: Result<i128, Error>)
        ensures
            (r, final(self).rest()) == read_spec::<i128>(old(self).rest(), End::Little),
            final(self).max_alloc() == old(self).max_alloc(),
    {
        self.read_m::<i128>(End::Little)
    }

    /// Reads a `i128`, most significant byte first.
    pub fn read_i128_be(&mut self) -> (r: Result<i128, Error>)
        ensures
            (r, final(self).rest()) == read_spec::<i128>(old(self).rest(), End::Big),
            final(self).max_alloc() == old(self).max_alloc(),
    {
        self.read_m::<i128>(End::Big)
    }

    /// Reads a `i128`, in the target machine's byte order.
    pub fn read_i128_ne(&mut self) -> (r: Result<i128, Error>)
        ensures
            (r, final(self).rest()) == read_spec::<i128>(old(self).rest(), End::Native),
            final(self).max_alloc() == old(self).max_alloc(),
    {
        self.read_m::<i128>(End::Native)
    }

    /// Reads a `i128` in the byte order `end`.
    pub fn read_i128_endian(&mut self, end: End) -> (r: Result<i128, Error>)
        ensures
            (r, final(self).rest()) == read_spec::<i128>(old(self).rest(), end),
            final(self).max_alloc() == old(self).max_alloc(),
    {
        self.read_m::<i128>(end)
    }
}

} // verus!
