//! The random draws of the simulation, taken from a `ChaCha8Rng`.

use rand::Rng;
use vstd::prelude::*;

verus! {

/// Makes `rand_chacha::ChaCha8Rng` known as a type. Nothing is said of what
/// a generator holds.
#[verifier::external_type_specification]
#[verifier::external_body]
pub struct ExChaCha8Rng(rand_chacha::ChaCha8Rng);

/// Calls `rand::Rng::random_ratio`. Trusted: the call returns for a nonzero
/// denominator and a numerator that does not exceed it; it never hits where
/// the numerator is zero and always hits where it equals the denominator.
/// Nothing else is claimed of the outcome.
#[verifier::external_body]
pub(crate) fn draw_ratio(rng: &mut rand_chacha::ChaCha8Rng, numerator: u32, denominator: u32) -> (hit: bool)
    requires
        denominator > 0,
        numerator <= denominator,
    ensures
        numerator == 0 ==> !hit,
        numerator == denominator ==> hit,
{
    rng.random_ratio(numerator, denominator)
}

/// Calls `rand::Rng::random_range` on the half-open range `low..high`.
/// Trusted: for a range that is not empty the call returns a value in it.
#[verifier::external_body]
pub(crate) fn draw_between(rng: &mut rand_chacha::ChaCha8Rng, low: i64, high: i64) -> (value: i64)
    requires
        low < high,
    ensures
        low <= value < high,
{
    rng.random_range(low..high)
}

} // verus!
