//! The random draws that recombination makes, taken from the `rand` crate's
//! generator of the current thread. Nothing in this file is proved: each
//! contract says what the `rand` crate does, and the proofs elsewhere rest on
//! it.

use rand::rngs::ThreadRng;
use rand::Rng;
use vstd::prelude::*;

verus! {

/// The handle of `rand` to the random generator of the current thread. What
/// is inside it is of no concern here: it is only handed on to the draws.
#[verifier::external_type_specification]
#[verifier::external_body]
pub struct ExThreadRng(ThreadRng);

/// `rand::thread_rng` hands out the generator of the current thread. Nothing
/// is claimed of it. Where the system has no seed to give it, the call does
/// not come back: the program ends there.
pub assume_specification[ rand::thread_rng ]() -> (rng: ThreadRng);

/// `Rng::gen_range` on the inclusive range from `low` to `high`: some number
/// of that range, and no claim which. An empty range makes the call panic, so
/// `low` may not be above `high`.
#[verifier::external_body]
pub(crate) fn pick_between(rng: &mut ThreadRng, low: usize, high: usize) -> (picked: usize)
    requires
        low <= high,
    ensures
        low <= picked <= high,
{
    rng.gen_range(low..=high)
}

/// `Rng::gen_ratio`: a coin that shows heads `numerator` times in
/// `denominator`. It is certain to show heads where the two are equal and
/// tails where `numerator` is zero; of any other coin no outcome is claimed.
/// The call panics on a zero `denominator` and on a `numerator` above it.
#[verifier::external_body]
pub(crate) fn flip(rng: &mut ThreadRng, numerator: u32, denominator: u32) -> (heads: bool)
    requires
        0 < denominator,
        numerator <= denominator,
    ensures
        numerator == denominator ==> heads,
        numerator == 0 ==> !heads,
{
    rng.gen_ratio(numerator, denominator)
}

} // verus!
