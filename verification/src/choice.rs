//! Weighted and uniform choice among alternatives.
//!
//! A choice is made in two steps: a ticket is drawn from the random source,
//! and the ticket is mapped to an alternative. The second step is a pure
//! function and carries the exact contract.

use crate::entropy::draw_below;
use crate::error::GenError;
use rand::rngs::StdRng;
use vstd::prelude::*;

verus! {

/// The sum of all weights.
pub open spec fn weight_sum(weights: Seq<u32>) -> nat
    decreases weights.len(),
{
    if weights.len() == 0 {
        0
    } else {
        weight_sum(weights.drop_last()) + weights.last() as nat
    }
}

/// Whether `ticket` falls into the stretch of tickets that belongs to
/// alternative `index`: the alternatives divide the tickets
/// `0..weight_sum(weights)` among themselves in order, each taking as many
/// as its weight.
pub open spec fn ticket_selects(weights: Seq<u32>, ticket: nat, index: int) -> bool {
    &&& 0 <= index < weights.len()
    &&& weight_sum(weights.take(index)) <= ticket < weight_sum(weights.take(index + 1))
}

/// Taking one more weight adds that weight to the sum.
pub proof fn lemma_weight_sum_step(weights: Seq<u32>, index: int)
    requires
        0 <= index < weights.len(),
    ensures
        weight_sum(weights.take(index + 1)) == weight_sum(weights.take(index)) + weights[index],
{
    assert(weights.take(index + 1).drop_last() =~= weights.take(index));
}

/// The sum of the first `count` weights is monotone in `count` and bounded by
/// `count` times the largest weight a `u32` can hold.
pub proof fn lemma_weight_sum_prefix(weights: Seq<u32>, lo: int, hi: int)
    requires
        0 <= lo <= hi <= weights.len(),
    ensures
        weight_sum(weights.take(lo)) <= weight_sum(weights.take(hi)),
        weight_sum(weights.take(hi)) <= hi * 0xffff_ffff,
    decreases hi,
{
    if hi == 0 {
        assert(weights.take(0).len() == 0);
    } else {
        lemma_weight_sum_step(weights, hi - 1);
        if lo < hi {
            lemma_weight_sum_prefix(weights, lo, hi - 1);
        } else {
            lemma_weight_sum_prefix(weights, hi - 1, hi - 1);
        }
    }
}

/// A ticket selects at most one alternative.
pub proof fn lemma_ticket_selects_unique(weights: Seq<u32>, ticket: nat, a: int, b: int)
    requires
        ticket_selects(weights, ticket, a),
        ticket_selects(weights, ticket, b),
    ensures
        a == b,
{
    if a < b {
        lemma_weight_sum_prefix(weights, a + 1, b);
    } else if b < a {
        lemma_weight_sum_prefix(weights, b + 1, a);
    }
}

/// An alternative of weight zero owns no ticket, so it is never selected.
pub proof fn lemma_zero_weight_never_selected(weights: Seq<u32>, ticket: nat, index: int)
    requires
        ticket_selects(weights, ticket, index),
    ensures
        weights[index] > 0,
{
    lemma_weight_sum_step(weights, index);
}

/// Where exactly one alternative has a positive weight, every ticket selects
/// it.
pub proof fn lemma_sole_candidate_always_selected(
    weights: Seq<u32>,
    ticket: nat,
    index: int,
    sole: int,
)
    requires
        ticket_selects(weights, ticket, index),
        0 <= sole < weights.len(),
        forall|i: int| 0 <= i < weights.len() && i != sole ==> weights[i] == 0,
    ensures
        index == sole,
{
    lemma_zero_weight_never_selected(weights, ticket, index);
}

/// One positive weight makes the sum positive.
pub proof fn lemma_weight_sum_positive(weights: Seq<u32>, index: int)
    requires
        0 <= index < weights.len(),
        weights[index] > 0,
    ensures
        weight_sum(weights) > 0,
{
    lemma_weight_sum_step(weights, index);
    lemma_weight_sum_prefix(weights, index + 1, weights.len() as int);
    assert(weights.take(weights.len() as int) =~= weights);
}

/// The sum of four weights.
pub proof fn lemma_weight_sum_of_four(weights: Seq<u32>)
    requires
        weights.len() == 4,
    ensures
        weight_sum(weights) == weights[0] + weights[1] + weights[2] + weights[3],
{
    lemma_weight_sum_step(weights, 0);
    lemma_weight_sum_step(weights, 1);
    lemma_weight_sum_step(weights, 2);
    lemma_weight_sum_step(weights, 3);
    assert(weights.take(0).len() == 0);
    assert(weights.take(4) =~= weights);
}

/// Adds up the weights.
pub fn total_weight(weights: &Vec<u32>) -> (total: u128)
    ensures
        total == weight_sum(weights@),
{
    let mut total: u128 = 0;
    let mut i: usize = 0;
    while i < weights.len()
        invariant
            i <= weights.len(),
            total == weight_sum(weights@.take(i as int)),
            total <= i * 0xffff_ffff,
        decreases weights.len() - i,
    {
        proof {
            lemma_weight_sum_step(weights@, i as int);
        }
        total = total + weights[i] as u128;
        i = i + 1;
    }
    assert(weights@.take(i as int) =~= weights@);
    total
}

/// Maps a ticket to the alternative that owns it.
pub fn select_weighted(weights: &Vec<u32>, ticket: u128) -> (index: usize)
    requires
        ticket < weight_sum(weights@),
    ensures
        ticket_selects(weights@, ticket as nat, index as int),
        weights[index as int] > 0,
{
    let mut passed: u128 = 0;
    let mut i: usize = 0;
    loop
        invariant
            i < weights.len(),
            passed == weight_sum(weights@.take(i as int)),
            passed <= ticket,
            ticket < weight_sum(weights@),
        ensures
            ticket_selects(weights@, ticket as nat, i as int),
        decreases weights.len() - i,
    {
        proof {
            lemma_weight_sum_step(weights@, i as int);
            lemma_weight_sum_prefix(weights@, i as int + 1, weights.len() as int);
            assert(weights@.take(weights.len() as int) =~= weights@);
        }
        let reach: u128 = passed + weights[i] as u128;
        if ticket < reach {
            break;
        }
        passed = reach;
        i = i + 1;
    }
    proof {
        lemma_zero_weight_never_selected(weights@, ticket as nat, i as int);
    }
    i
}

/// Picks an alternative with probability proportional to its weight.
///
/// Fails exactly when no weight is positive. An alternative of weight zero
/// is never picked.
pub fn frequency(rng: &mut StdRng, weights: &Vec<u32>) -> (choice: Result<usize, GenError>)
    ensures
        choice is Err <==> weight_sum(weights@) == 0,
        choice matches Err(e) ==> e == GenError::EmptyChoiceSet,
        choice matches Ok(index) ==> index < weights.len() && weights[index as int] > 0,
{
    let total = total_weight(weights);
    if total == 0 {
        return Err(GenError::EmptyChoiceSet);
    }
    let ticket = draw_below(rng, total);
    Ok(select_weighted(weights, ticket))
}

/// Picks one of `count` alternatives, each with the same probability.
///
/// Fails exactly when there is no alternative.
pub fn one_of(rng: &mut StdRng, count: usize) -> (choice: Result<usize, GenError>)
    ensures
        choice is Err <==> count == 0,
        choice matches Err(e) ==> e == GenError::EmptyChoiceSet,
        choice matches Ok(index) ==> index < count,
{
    if count == 0 {
        return Err(GenError::EmptyChoiceSet);
    }
    let ticket = draw_below(rng, count as u128);
    Ok(ticket as usize)
}

/// Picks one element of a collection, each with the same probability.
///
/// Fails exactly when the collection is empty.
pub fn pick<'a, T>(rng: &mut StdRng, items: &'a Vec<T>) -> (choice: Result<&'a T, GenError>)
    ensures
        choice is Err <==> items.len() == 0,
        choice matches Err(e) ==> e == GenError::EmptyChoiceSet,
        choice matches Ok(item) ==> exists|i: int| 0 <= i < items.len() && items[i] == *item,
{
    match one_of(rng, items.len()) {
        Ok(index) => Ok(&items[index]),
        Err(e) => Err(e),
    }
}

} // verus!
