//! Fresh identifiers for cue files and tracks.

use vstd::prelude::*;

verus! {

/// The bits of an identifier that say how it was made.
pub const ID_FORM_MASK: u128 = 0xF000_C000_0000_0000_0000u128;

/// The value of those bits in a randomly generated identifier.
pub const ID_FORM_RANDOM: u128 = 0x4000_8000_0000_0000_0000u128;

/// Calls `uuid::Uuid::new_v4` and hands the identifier out as the 128-bit
/// number that `Uuid::as_u128` gives. The value is random; all that is
/// claimed of it is that it carries the version and variant marks that
/// `new_v4` sets on every identifier. The call relies on the operating
/// system's random source.
#[verifier::external_body]
pub(crate) fn fresh_id() -> (id: u128)
    ensures
        id & ID_FORM_MASK == ID_FORM_RANDOM,
{
    uuid::Uuid::new_v4().as_u128()
}

} // verus!
