//! Sequential, endianness-aware decoding of typed values from a byte source.
//!
//! A [`Muncher`] owns the bytes still to be read and an allocation ceiling.
//! Every read consumes bytes from the front and either yields a value or an
//! error; nothing is ever rolled back.
//!
//! - [`endian`]: the byte-order descriptor.
//! - [`num`]: the numeric types that decode themselves from bytes.
//! - [`muncher`] and [`ints`]: the decoder and its numeric reads.
//! - [`text`]: byte runs and UTF-8 / UCS-2 text.
//! - [`mutf`]: MUTF-8 text.

pub mod endian;
pub mod error;
pub mod ints;
pub mod muncher;
pub mod mutf;
pub mod num;
mod outside;
pub mod text;

pub use endian::End;
pub use error::{Error, ErrorKind};
pub use muncher::{Muncher, DEFAULT_MAX_ALLOC};
pub use mutf::{mutf2utf, MutfError};
pub use num::ReadEndian;
pub use text::bytes2utf8;
