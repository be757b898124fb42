//! Randomness, behind trusted wrappers. Nothing is promised of a random
//! outcome beyond its range; every function that consumes one is verified
//! for every value the range admits.

use vstd::prelude::*;

verus! {

/// The small, fast random number generator the game uses for debris drops
/// and entity placement.
#[verifier::external_type_specification]
#[verifier::external_body]
pub struct ExSmallRng(rand::rngs::SmallRng);

/// Relies on rand's `SeedableRng::from_os_rng`: a fresh generator seeded
/// from the operating system. It takes no inputs; it aborts only if the
/// operating system's randomness source itself fails.
#[verifier::external_body]
pub(crate) fn rng_from_os() -> rand::rngs::SmallRng {
    <rand::rngs::SmallRng as rand::SeedableRng>::from_os_rng()
}

/// Relies on rand's `Rng::random_ratio`: true with probability num/den.
/// It panics when the ratio lies outside [0, 1], so those inputs are kept
/// out; of the outcome itself nothing can be promised.
#[verifier::external_body]
pub(crate) fn rng_ratio(rng: &mut rand::rngs::SmallRng, num: u32, den: u32) -> bool
    requires
        den > 0,
        num <= den,
{
    rand::Rng::random_ratio(rng, num, den)
}

/// Relies on rand's `Rng::random_range`: a value uniformly drawn from
/// `lo..hi`. It panics on an empty range, so those inputs are kept out.
#[verifier::external_body]
pub(crate) fn rng_range_i32(rng: &mut rand::rngs::SmallRng, lo: i32, hi: i32) -> (r: i32)
    requires
        lo < hi,
    ensures
        lo <= r < hi,
{
    rand::Rng::random_range(rng, lo..hi)
}

/// Relies on rand's `Rng::random_range`: a value uniformly drawn from
/// `lo..hi`. It panics on an empty range, so those inputs are kept out.
#[verifier::external_body]
pub(crate) fn rng_range_usize(rng: &mut rand::rngs::SmallRng, lo: usize, hi: usize) -> (r: usize)
    requires
        lo < hi,
    ensures
        lo <= r < hi,
{
    rand::Rng::random_range(rng, lo..hi)
}

} // verus!
