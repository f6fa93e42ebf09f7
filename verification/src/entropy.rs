//! The pseudo-random source that every generator draws from.
//!
//! All randomness enters the library through the three functions below. Each
//! of them forwards to the `rand` crate and is believed, not proved; what is
//! stated of them holds for every draw.

use rand::rngs::StdRng;
use rand::seq::SliceRandom;
use rand::Rng;
use vstd::prelude::*;

verus! {

#[verifier::external_type_specification]
#[verifier::external_body]
pub struct ExStdRng(StdRng);

/// Calls `Rng::gen_range` on the half-open range `0..bound`.
///
/// Claimed of it: the number drawn lies in the range. The call panics on an
/// empty range, which the precondition excludes.
#[verifier::external_body]
pub(crate) fn draw_below(rng: &mut StdRng, bound: u128) -> (ticket: u128)
    requires
        bound > 0,
    ensures
        ticket < bound,
{
    rng.gen_range(0..bound)
}

/// Calls `Rng::gen_ratio`, which answers `true` with probability
/// `numerator / denominator`.
///
/// Claimed of it: a ratio of one always answers `true` and a ratio of zero
/// always answers `false`. The call panics on a zero denominator and on a
/// ratio above one, which the precondition excludes.
#[verifier::external_body]
pub(crate) fn draw_ratio(rng: &mut StdRng, numerator: u32, denominator: u32) -> (hit: bool)
    requires
        0 < denominator,
        numerator <= denominator,
    ensures
        numerator == denominator ==> hit,
        numerator == 0 ==> !hit,
{
    rng.gen_ratio(numerator, denominator)
}

/// Calls `SliceRandom::shuffle` on the vector's elements.
///
/// Claimed of it: the elements are rearranged in place by swaps, so the
/// vector holds the same elements as before, each as often as before.
#[verifier::external_body]
pub(crate) fn shuffle<T>(rng: &mut StdRng, items: &mut Vec<T>)
    ensures
        final(items)@.to_multiset() == old(items)@.to_multiset(),
{
    items.shuffle(rng)
}

} // verus!
