use mutf8::error::Error as MutfInnerError;
use vstd::prelude::*;

verus! {

/// The error type of the `mutf8` crate, carried through as an opaque value.
#[verifier::external_type_specification]
#[verifier::external_body]
pub struct ExMutfInnerError(MutfInnerError);

} // verus!
