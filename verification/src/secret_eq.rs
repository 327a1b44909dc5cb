//! Comparison of secrets in constant time.
use vstd::prelude::*;

verus! {

/// Calls `sodiumoxide::utils::memcmp`. Trusted: the result is `true` exactly
/// when the two byte strings have the same length and the same contents. The
/// time taken does not depend on the contents.
#[verifier::external_body]
pub(crate) fn secret_eq(x: &[u8], y: &[u8]) -> (same: bool)
    ensures
        same == (x@ == y@),
{
    sodiumoxide::utils::memcmp(x, y)
}

} // verus!
