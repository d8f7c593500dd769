//! The one source of chance: whether a cell of a fresh universe starts alive.

use rand::Rng;
use vstd::prelude::*;

verus! {

/// `rand::Rng::gen_ratio` on the generator of the calling thread,
/// `rand::thread_rng()`: `true` with a chance of `numerator` in
/// `denominator`.
///
/// Nothing is proved here. The method panics when `denominator` is zero or
/// `numerator` exceeds it, so both are ruled out. Of the outcome the contract
/// claims only what the method documents for the two ends of the range: never
/// `true` at zero, always `true` when the two numbers are equal. In between
/// the outcome is a matter of chance, and two calls may differ.
///
/// The generator is seeded by the system when the thread first asks for it,
/// and panics if the system has no randomness to give; no argument can rule
/// that out.
#[verifier::external_body]
pub(crate) fn random_ratio(numerator: u32, denominator: u32) -> (hit: bool)
    requires
        denominator > 0,
        numerator <= denominator,
    ensures
        numerator == 0 ==> !hit,
        numerator == denominator ==> hit,
{
    rand::thread_rng().gen_ratio(numerator, denominator)
}

} // verus!
