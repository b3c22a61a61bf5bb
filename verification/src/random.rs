//! The one source of chance in the library.

use rand::Rng;
use vstd::prelude::*;

verus! {

/// Draws a number from `low` up to, but not including, `high`.
///
/// Calls `rand::Rng::gen_range` on the generator that `rand::thread_rng`
/// returns. `gen_range` panics when `low >= high`, so callers have to pass a
/// range that is not empty. Of the number drawn only its range is known: two
/// calls with the same bounds may differ.
#[verifier::external_body]
pub(crate) fn random_in_range(low: u64, high: u64) -> (drawn: u64)
    requires
        low < high,
    ensures
        low <= drawn < high,
{
    rand::thread_rng().gen_range(low, high)
}

/// Tosses a coin that comes up `true` in `numerator` of `denominator`
/// cases.
///
/// Calls `rand::Rng::gen_ratio` on the generator that `rand::thread_rng`
/// returns. `gen_ratio` panics when the denominator is zero or the numerator
/// exceeds it, so callers have to pass a proper ratio. Nothing is claimed of
/// the outcome.
#[verifier::external_body]
pub(crate) fn random_ratio(numerator: u32, denominator: u32) -> (hit: bool)
    requires
        0 < denominator,
        numerator <= denominator,
{
    rand::thread_rng().gen_ratio(numerator, denominator)
}

} // verus!
