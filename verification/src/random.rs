//! The random source and the draws the crate makes from it.
//!
//! Every function here hands one call to the `rand` crate; what is stated
//! of a draw is what holds of every outcome.

use rand::distributions::WeightedError;
use rand::seq::SliceRandom;
use rand::Rng;
use rand_chacha::ChaCha8Rng;
use vstd::prelude::*;

verus! {

/// `rand_chacha::ChaCha8Rng`, the one generator the crate draws from.
/// Its state is opaque here.
#[verifier::external_type_specification]
#[verifier::external_body]
pub struct ExChaCha8Rng(ChaCha8Rng);

/// `rand::distributions::WeightedError`, the reason a weighted choice was
/// refused. Its variants are not told apart here.
#[verifier::external_type_specification]
#[verifier::external_body]
pub struct ExWeightedError(WeightedError);

/// The sum of a sequence of weights.
pub open spec fn weight_sum(weights: Seq<u32>) -> nat
    decreases weights.len(),
{
    if weights.len() == 0 {
        0
    } else {
        weight_sum(weights.drop_last()) + weights.last() as nat
    }
}

/// The weights of a sequence of `(index, weight)` entries, in order.
pub open spec fn weights_of(entries: Seq<(usize, u32)>) -> Seq<u32> {
    entries.map_values(|entry: (usize, u32)| entry.1)
}

/// `rand::Rng::gen_ratio`: a Bernoulli trial that succeeds with chance
/// `numerator / denominator`. The call panics on a zero denominator and on a
/// numerator above the denominator, which the precondition leaves out. Its
/// documentation guarantees `false` for a zero numerator and `true` where
/// numerator and denominator are equal; nothing else is claimed.
#[verifier::external_body]
pub(crate) fn chance(rng: &mut ChaCha8Rng, numerator: u32, denominator: u32) -> (hit: bool)
    requires
        denominator > 0,
        numerator <= denominator,
    ensures
        numerator == 0 ==> !hit,
        numerator == denominator ==> hit,
{
    rng.gen_ratio(numerator, denominator)
}

/// `rand::Rng::gen_range` on the half-open range `0..bound`. The call panics
/// on an empty range, which the precondition leaves out; the value drawn lies
/// in the range.
#[verifier::external_body]
pub(crate) fn uniform_index(rng: &mut ChaCha8Rng, bound: usize) -> (index: usize)
    requires
        bound > 0,
    ensures
        index < bound,
{
    rng.gen_range(0..bound)
}

/// `rand::seq::SliceRandom::choose_weighted` over `(index, weight)` entries,
/// weighted by the second component. The call adds the weights up in `u32`,
/// so the precondition keeps their sum in range. It refuses an empty slice
/// and one whose weights are all zero, and nothing else of unsigned weights;
/// an entry it returns is one of the slice and has a positive weight.
#[verifier::external_body]
pub(crate) fn weighted_entry(rng: &mut ChaCha8Rng, entries: &Vec<(usize, u32)>) -> (chosen: Result<
    (usize, u32),
    WeightedError,
>)
    requires
        weight_sum(weights_of(entries@)) <= u32::MAX,
    ensures
        chosen is Err <==> weight_sum(weights_of(entries@)) == 0,
        chosen matches Ok(entry) ==> entries@.contains(entry) && entry.1 > 0,
{
    entries.choose_weighted(rng, |entry| entry.1).map(|entry| *entry)
}

} // verus!
