//! Unique identifiers for produced events.

use vstd::prelude::*;

verus! {

/// A version 4 (random) UUID, held as its 128-bit big-endian value.
#[derive(Clone, Copy, Debug, PartialEq, Eq, Hash, Structural)]
pub struct UUID4 {
    pub value: u128,
}

/// Bits that fix the version (4) and the variant (RFC 4122) of a random UUID.
pub const V4_MASK: u128 = 0xF000_C000_0000_0000_0000;

/// Value of the bits under `V4_MASK` in every random UUID.
pub const V4_BITS: u128 = 0x4000_8000_0000_0000_0000;

/// Whether `value` has the version and variant bits of a random UUID.
pub open spec fn is_v4(value: u128) -> bool {
    value & V4_MASK == V4_BITS
}

/// Relies on `uuid::Uuid::new_v4` and `uuid::Uuid::as_u128`: a random value
/// whose version nibble is 4 and whose variant bits are `10`.
/// `new_v4` panics only when the system's random source fails.
#[verifier::external_body]
fn random_v4_value() -> (r: u128)
    ensures
        is_v4(r),
{
    uuid::Uuid::new_v4().as_u128()
}

impl UUID4 {
    /// A freshly generated random identifier.
    pub fn new() -> (r: UUID4)
        ensures
            is_v4(r.value),
    {
        UUID4 { value: random_v4_value() }
    }

    /// The identifier with the given 128-bit value.
    pub fn from_u128(value: u128) -> (r: UUID4)
        ensures
            r.value == value,
    {
        UUID4 { value }
    }
}

} // verus!
