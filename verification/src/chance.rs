//! The random draws the game makes, on the thread-local generator of `rand`.
use rand::Rng;
use vstd::prelude::*;

verus! {

/// `Rng::random_range(0..n)` on `rand::rng()`.
///
/// Trusted: `random_range` returns a value of the range (it panics on an
/// empty range, which `requires` excludes); which one is left to chance.
#[verifier::external_body]
pub(crate) fn random_below(n: u32) -> (r: u32)
    requires
        n > 0,
    ensures
        r < n,
{
    rand::rng().random_range(0..n)
}

/// `Rng::random_range(..n)` on `rand::rng()`, as `IndexedRandom::choose`
/// draws an index into a slice of length `n`.
///
/// Trusted: the result is an index below `n` (the range must not be empty);
/// which one is left to chance.
#[verifier::external_body]
pub(crate) fn random_index(n: usize) -> (r: usize)
    requires
        n > 0,
    ensures
        r < n,
{
    rand::rng().random_range(..n)
}

/// `Rng::random_ratio(numerator, denominator)` on `rand::rng()`: `true`
/// with probability `numerator / denominator`.
///
/// Trusted: per rand's documentation the result is always `false` for a
/// zero numerator and always `true` when the numerator equals the
/// denominator (it panics on a zero denominator or a numerator above it,
/// which `requires` excludes); otherwise it is left to chance.
#[verifier::external_body]
pub(crate) fn random_ratio(numerator: u32, denominator: u32) -> (r: bool)
    requires
        0 < denominator,
        numerator <= denominator,
    ensures
        numerator == 0 ==> !r,
        numerator == denominator ==> r,
{
    rand::rng().random_ratio(numerator, denominator)
}

} // verus!
