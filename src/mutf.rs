use crate::endian::End;
use crate::error::Error;
use crate::muncher::Muncher;
use crate::num::ReadEndian;
use mutf8::error::Error as MutfInnerError;
use crate::text::{cstr_spec, fixed_bytes_spec, pref_bytes_spec};
use vstd::prelude::*;
use vstd::utf8::{decode_utf8, valid_utf8};

verus! {

/// The UTF-8 bytes that `mutf8::mutf8_to_utf8` makes of `b`, or `None` where
/// it reports an error.
pub uninterp spec fn mutf8_decoded(b: Seq<u8>) -> Option<Seq<u8>>;

/// The text that `String::from_utf8_lossy` makes of `b`.
pub uninterp spec fn utf8_lossy(b: Seq<u8>) -> Seq<char>;

/// Relies on `mutf8::mutf8_to_utf8`: its outcome depends on the input bytes
/// alone.
#[verifier::external_body]
fn mutf8_to_utf8_bytes(b: &[u8]) -> (r: Result<Vec<u8>, MutfInnerError>)
    ensures
        r is Ok <==> mutf8_decoded(b@) is Some,
        r is Ok ==> r->Ok_0@ == mutf8_decoded(b@)->Some_0,
{
    match mutf8::mutf8_to_utf8(b) {
        Ok(c) => Ok(c.into_owned()),
        Err(e) => Err(e),
    }
}

/// Relies on `String::from_utf8_lossy`: the text depends on the bytes alone,
/// and well-formed UTF-8 is decoded as it is.
#[verifier::external_body]
fn string_from_utf8_lossy(b: &[u8]) -> (r: String)
    ensures
        r@ == utf8_lossy(b@),
        valid_utf8(b@) ==> r@ == decode_utf8(b@),
{
    String::from_utf8_lossy(b).into_owned()
}

/// Why a MUTF-8 read failed: the read itself, or the bytes' encoding.
#[derive(Debug)]
pub enum MutfError {
    /// The bytes could not be read (see [`Error`]).
    Io(Error),
    /// The bytes are not valid MUTF-8.
    Mutf(MutfInnerError),
}

impl From<Error> for MutfError {
    fn from(value: Error) -> (r: MutfError)
        ensures
            r == MutfError::Io(value),
    {
        MutfError::Io(value)
    }
}

impl vstd::std_specs::convert::FromSpecImpl<Error> for MutfError {
    open spec fn obeys_from_spec() -> bool {
        true
    }

    open spec fn from_spec(v: Error) -> MutfError {
        MutfError::Io(v)
    }
}

impl From<MutfInnerError> for MutfError {
    fn from(value: MutfInnerError) -> (r: MutfError)
        ensures
            r == MutfError::Mutf(value),
    {
        MutfError::Mutf(value)
    }
}

impl vstd::std_specs::convert::FromSpecImpl<MutfInnerError> for MutfError {
    open spec fn obeys_from_spec() -> bool {
        true
    }

    open spec fn from_spec(v: MutfInnerError) -> MutfError {
        MutfError::Mutf(v)
    }
}

/// `r` is what decoding the byte result `b` as MUTF-8 gives: the read's own
/// failure, a MUTF-8 failure, or the decoded text.
pub open spec fn mutf_spec(b: Result<Seq<u8>, Error>, r: Result<String, MutfError>) -> bool {
    match b {
        Err(e) => r == Err::<String, MutfError>(MutfError::Io(e)),
        Ok(bytes) => match mutf8_decoded(bytes) {
            Some(d) => r is Ok && r->Ok_0@ == utf8_lossy(d),
            None => r is Err && r->Err_0 is Mutf,
        },
    }
}

/// Decodes MUTF-8 bytes into text.
pub fn mutf2utf(buf: &[u8]) -> (r: Result<String, MutfError>)
    ensures
        mutf_spec(Ok(buf@), r),
{
    match mutf8_to_utf8_bytes(buf) {
        Ok(d) => Ok(string_from_utf8_lossy(d.as_slice())),
        Err(e) => Err(MutfError::Mutf(e)),
    }
}

impl Muncher {
    /// Reads a length of type `E` in the order `end`, then that many bytes
    /// as MUTF-8 text.
    pub fn read_pref_mutf8<E: ReadEndian>(&mut self, end: End) -> (r: Result<String, MutfError>)
        ensures
            mutf_spec(pref_bytes_spec::<E>(old(self).rest(), old(self).max_alloc(), end).0, r),
            final(self).rest() == pref_bytes_spec::<E>(
                old(self).rest(),
                old(self).max_alloc(),
                end,
            ).1,
            final(self).max_alloc() == old(self).max_alloc(),
    {
        match self.read_pref_bytes::<E>(end) {
            Ok(b) => mutf2utf(b.as_slice()),
            Err(e) => Err(MutfError::Io(e)),
        }
    }

    /// Reads `len` bytes as MUTF-8 text. (`E` plays no part in the read.)
    pub fn read_fixed_mutf8<E: ReadEndian>(&mut self, len: usize) -> (r: Result<
        String,
        MutfError,
    >)
        ensures
            mutf_spec(fixed_bytes_spec(old(self).rest(), old(self).max_alloc(), len as nat).0, r),
            final(self).rest() == fixed_bytes_spec(
                old(self).rest(),
                old(self).max_alloc(),
                len as nat,
            ).1,
            final(self).max_alloc() == old(self).max_alloc(),
    {
        match self.read_fixed_bytes(len) {
            Ok(b) => mutf2utf(b.as_slice()),
            Err(e) => Err(MutfError::Io(e)),
        }
    }

    /// Reads a C-style string (the bytes before the next zero byte) as
    /// MUTF-8 text.
    pub fn read_cstr_mutf8(&mut self) -> (r: Result<String, MutfError>)
        ensures
            mutf_spec(cstr_spec(old(self).rest()).0, r),
            final(self).rest() == cstr_spec(old(self).rest()).1,
            final(self).max_alloc() == old(self).max_alloc(),
    {
        match self.read_cstr_bytes() {
            Ok(b) => mutf2utf(b.as_slice()),
            Err(e) => Err(MutfError::Io(e)),
        }
    }
}

} // verus!
