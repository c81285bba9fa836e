use vstd::prelude::*;

verus! {

/// The bits of a 128-bit UUID that hold its version nibble and the two
/// leading bits of its variant.
pub const VERSION_VARIANT_MASK: u128 = 0xF000_C000_0000_0000_0000;

/// The value of those bits in a random (version 4, RFC 4122 variant) UUID.
pub const V4_BITS: u128 = 0x4000_8000_0000_0000_0000;

/// A globally unique actor identifier: a 128-bit UUID held as its integer value.
#[derive(Clone, Copy, Debug, PartialEq, Eq, Hash, Structural)]
pub struct ActorId {
    pub value: u128,
}

/// Relies on uuid::Uuid::new_v4, read back with as_u128: a random value whose
/// version and variant bits are those of a version 4 UUID.
#[verifier::external_body]
fn random_v4_value() -> (r: u128)
    ensures
        r & VERSION_VARIANT_MASK == V4_BITS,
{
    uuid::Uuid::new_v4().as_u128()
}

impl ActorId {
    /// Whether the identifier carries the version and variant bits of a random UUID.
    pub open spec fn is_v4(self) -> bool {
        self.value & VERSION_VARIANT_MASK == V4_BITS
    }

    /// Draws a fresh random identifier.
    pub fn new_v4() -> (r: ActorId)
        ensures
            r.is_v4(),
    {
        ActorId { value: random_v4_value() }
    }

    pub fn from_u128(value: u128) -> (r: ActorId)
        ensures
            r.value == value,
    {
        ActorId { value }
    }

    pub fn as_u128(&self) -> (r: u128)
        ensures
            r == self.value,
    {
        self.value
    }
}

} // verus!
