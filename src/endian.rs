use vstd::endian::{endianness, Endian};
use vstd::prelude::*;

verus! {

/// The order in which the bytes of a multi-byte value are stored.
///
/// `Native` is the order of the machine the library was built for; it never
/// changes while a program runs.
#[derive(Debug, Clone, Copy, PartialEq, Eq, Structural)]
pub enum End {
    /// Least significant byte first.
    Little,
    /// Most significant byte first.
    Big,
    /// The byte order of the target machine.
    Native,
}

/// True when the target machine stores its least significant byte first.
pub open spec fn host_is_le() -> bool {
    endianness() == Endian::Little
}

/// The concrete byte order (`Little` or `Big`) that `Native` stands for.
pub open spec fn host_end() -> End {
    if host_is_le() {
        End::Little
    } else {
        End::Big
    }
}

/// Relies on `u16::from_ne_bytes`: the two bytes are read in the target
/// machine's own byte order.
#[verifier::external_body]
fn u16_from_ne_bytes(b: [u8; 2]) -> (r: u16)
    ensures
        r as int == (if host_is_le() {
            b[0] as int + 256 * b[1] as int
        } else {
            256 * b[0] as int + b[1] as int
        }),
{
    u16::from_ne_bytes(b)
}

/// Whether the target machine is little-endian, found by decoding a known pattern.
fn target_is_le() -> (r: bool)
    ensures
        r == host_is_le(),
{
    u16_from_ne_bytes([1u8, 0u8]) == 1
}

impl End {
    /// True when `self` denotes little-endian order (for `Native`, the host's).
    pub open spec fn spec_is_le(self) -> bool {
        match self {
            End::Little => true,
            End::Big => false,
            End::Native => host_is_le(),
        }
    }

    /// The concrete order opposite to the one `self` denotes.
    pub open spec fn spec_opposite(self) -> End {
        if self.spec_is_le() {
            End::Big
        } else {
            End::Little
        }
    }

    /// Checks whether `self` is little-endian; `Native` answers for the host.
    pub fn is_le(self) -> (r: bool)
        ensures
            r == self.spec_is_le(),
    {
        match self {
            End::Little => true,
            End::Big => false,
            End::Native => target_is_le(),
        }
    }

    /// Flips `Little` to `Big` and back; `Native` gives the concrete order
    /// opposite to the host's, never `Native` again.
    pub fn opposite(self) -> (r: End)
        ensures
            r == self.spec_opposite(),
            r != End::Native,
    {
        match self {
            End::Little => End::Big,
            End::Big => End::Little,
            End::Native => {
                if target_is_le() {
                    End::Big
                } else {
                    End::Little
                }
            },
        }
    }

    /// Checks whether `self` denotes the same order as the target machine;
    /// `Native` always does.
    pub fn is_target_endian(self) -> (r: bool)
        ensures
            r == (self.spec_is_le() == host_is_le()),
    {
        match self {
            End::Little => target_is_le(),
            End::Big => !target_is_le(),
            End::Native => true,
        }
    }
}

/// Flipping a concrete byte order twice gives it back; flipping `Native`
/// twice gives the concrete order of the host.
pub proof fn lemma_opposite_twice(e: End)
    ensures
        e != End::Native ==> e.spec_opposite().spec_opposite() == e,
        e == End::Native ==> e.spec_opposite().spec_opposite() == host_end(),
{
}

} // verus!
