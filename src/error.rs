use vstd::prelude::*;

verus! {

/// The two classes of failure a read can end in.
#[derive(Debug, Clone, Copy, PartialEq, Eq, Structural)]
pub enum ErrorKind {
    /// The source ran out before the bytes a read needed.
    UnexpectedEof,
    /// The bytes were there, but their content is not acceptable.
    InvalidData,
}

/// Why a read failed.
#[derive(Debug, Clone, Copy, PartialEq, Eq, Structural)]
pub enum Error {
    /// The source ended before the read had the bytes (or the terminator) it needs.
    UnexpectedEof,
    /// A boolean byte other than `0x00` or `0x01`.
    InvalidBool(u8),
    /// A length larger than the decoder's allocation ceiling.
    AllocLimit,
    /// Bytes that are not well-formed UTF-8.
    InvalidUtf8,
    /// UCS-2 text holding a code unit in the surrogate range `0xD800..=0xDFFF`.
    InvalidUcs2,
}

impl Error {
    pub open spec fn spec_kind(self) -> ErrorKind {
        match self {
            Error::UnexpectedEof => ErrorKind::UnexpectedEof,
            _ => ErrorKind::InvalidData,
        }
    }

    /// The class of this failure: running out of input, or bad content.
    pub fn kind(&self) -> (r: ErrorKind)
        ensures
            r == self.spec_kind(),
    {
        match self {
            Error::UnexpectedEof => ErrorKind::UnexpectedEof,
            _ => ErrorKind::InvalidData,
        }
    }
}

} // verus!
