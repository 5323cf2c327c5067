//! Random draws used by the game rules.
//!
//! Every draw goes through one of the small functions below, each a single
//! call into `rand`. Their contracts state only what holds of every outcome
//! (the range of the result); the rules that use them are verified for every
//! value a draw can return.

use rand::distr::weighted::WeightedIndex;
use rand::distr::Distribution;
use rand::rngs::SmallRng;
use rand::seq::IteratorRandom;
use rand::Rng;
use vstd::prelude::*;

verus! {

/// The random-number generator the game rules draw from.
#[verifier::external_type_specification]
#[verifier::external_body]
pub struct ExSmallRng(SmallRng);

/// `Rng::random_range(0..bound)`: a uniform draw in `[0, bound)`.
/// `rand` panics on an empty range, so `bound` must be positive.
#[verifier::external_body]
pub fn random_below(rng: &mut SmallRng, bound: u32) -> (r: u32)
    requires
        bound > 0,
    ensures
        r < bound,
{
    rng.random_range(0..bound)
}

/// `Rng::random_range(low..=high)`: a uniform draw in `[low, high]`.
/// `rand` panics on an empty range, so `low <= high`.
#[verifier::external_body]
pub fn random_inclusive(rng: &mut SmallRng, low: u32, high: u32) -> (r: u32)
    requires
        low <= high,
    ensures
        low <= r <= high,
{
    rng.random_range(low..=high)
}

/// `IteratorRandom::choose` over the indices `0..len`: `None` exactly when
/// `len` is zero, otherwise a uniformly chosen index below `len`.
#[verifier::external_body]
pub fn choose_index(rng: &mut SmallRng, len: usize) -> (r: Option<usize>)
    ensures
        r is None <==> len == 0,
        r matches Some(i) ==> i < len,
{
    (0..len).choose(rng)
}

/// The sum of a sequence of weights.
pub open spec fn weight_sum(w: Seq<u32>) -> int
    decreases w.len(),
{
    if w.len() == 0 {
        0
    } else {
        weight_sum(w.drop_last()) + w.last()
    }
}

/// `WeightedIndex::new(weights)` followed by one `sample`. `new` fails on an
/// empty list, when the running total overflows `u32`, and when every weight
/// is zero; then no draw is made and the result is `None`. Otherwise the
/// sample is an index whose weight is positive (an item of weight zero has an
/// empty interval of the cumulative weights and is never returned).
#[verifier::external_body]
pub fn weighted_pick(rng: &mut SmallRng, weights: &Vec<u32>) -> (r: Option<usize>)
    ensures
        r is Some <==> (weights@.len() > 0 && 0 < weight_sum(weights@) <= u32::MAX),
        r matches Some(i) ==> i < weights@.len() && weights@[i as int] > 0,
{
    match WeightedIndex::new(weights.iter().copied()) {
        Ok(dist) => Some(dist.sample(rng)),
        Err(_) => None,
    }
}

} // verus!
