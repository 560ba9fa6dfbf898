//! Random identifiers, made by the `uuid` crate.

use vstd::prelude::*;

verus! {

/// The bits of an identifier that tell its version and variant.
pub const VERSION_AND_VARIANT_MASK: u128 = 0x0000_0000_0000_F000_C000_0000_0000_0000;

/// The version and variant of a random identifier: version 4, variant 1.
pub const RANDOM_VERSION_AND_VARIANT: u128 = 0x0000_0000_0000_4000_8000_0000_0000_0000;

/// The identifier has the version and variant of a random identifier.
pub open spec fn is_random_identifier(id: u128) -> bool {
    id & VERSION_AND_VARIANT_MASK == RANDOM_VERSION_AND_VARIANT
}

/// `Uuid::new_v4` of the `uuid` crate, as a number. Trusted: whatever the
/// random bits, the version is 4 and the variant is 1. Two calls may
/// differ.
#[verifier::external_body]
pub(crate) fn random_identifier() -> (r: u128)
    ensures
        is_random_identifier(r),
{
    uuid::Uuid::new_v4().as_u128()
}

/// A fresh security token.
pub fn new_security_token() -> (r: u128)
    ensures
        is_random_identifier(r),
{
    random_identifier()
}

} // verus!
