//! The one place where the crate draws randomness.

use vstd::prelude::*;

verus! {

/// Relies on rand::random_range: a uniformly drawn value of the given range.
/// Nothing can be promised of a random value beyond its bound; the callers
/// are verified for every value below `n`.
#[verifier::external_body]
pub fn random_below(n: usize) -> (r: usize)
    requires
        0 < n,
    ensures
        r < n,
{
    rand::random_range(0..n)
}

} // verus!
