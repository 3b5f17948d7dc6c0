//! Selection: one member of a population is chosen to be a parent.

use crate::error::PreconditionViolation;
use crate::genetic::Individual;
use crate::random::uniform_index;
use crate::random::weight_sum;
use crate::random::weighted_entry;
use crate::random::weights_of;
use rand_chacha::ChaCha8Rng;
use vstd::prelude::*;

verus! {

/// A way to choose one member of a population.
///
/// An implementation answers for its own result; a generation step takes
/// whatever it returns and fails as a whole where it fails.
pub trait SelectionMethod<I: Individual> {
    fn select<'a>(&self, rng: &mut ChaCha8Rng, population: &'a [I]) -> Result<
        &'a I,
        PreconditionViolation,
    >;
}

/// `chosen` is a result that `method` can give for `population`.
pub open spec fn selected<'a, I: Individual, S: SelectionMethod<I>>(
    method: S,
    population: &'a [I],
    chosen: Result<&'a I, PreconditionViolation>,
) -> bool {
    exists|rng: &mut ChaCha8Rng| call_ensures(S::select, (&method, rng, population), chosen)
}

/// Fitness-proportionate selection: a member is chosen with a chance
/// proportional to its share of the population's fitness.
///
/// A population whose fitness scores are all zero has no shares to go by;
/// every member of it is then equally likely.
#[derive(Clone, Copy, Debug, PartialEq, Eq, Structural)]
pub struct RouletteWheelSelection;

impl RouletteWheelSelection {
    pub fn new() -> (method: Self)
        ensures
            method == RouletteWheelSelection,
    {
        RouletteWheelSelection
    }

    /// Chooses an index of `weights` with a chance proportional to the
    /// weight there, or evenly among all indices where every weight is zero.
    /// One pass over the weights, then one draw.
    pub fn spin(rng: &mut ChaCha8Rng, weights: &Vec<u32>) -> (chosen: Result<
        usize,
        PreconditionViolation,
    >)
        ensures
            chosen is Ok <==> 0 < weights.len() && weight_sum(weights@) <= u32::MAX,
            weights.len() == 0 <==> chosen == Err::<usize, _>(
                PreconditionViolation::EmptyPopulation,
            ),
            0 < weights.len() && weight_sum(weights@) > u32::MAX <==> chosen == Err::<usize, _>(
                PreconditionViolation::FitnessOverflow,
            ),
            chosen matches Ok(index) ==> index < weights.len() && (weights[index as int] > 0
                || weight_sum(weights@) == 0),
    {
        let count = weights.len();
        if count == 0 {
            return Err(PreconditionViolation::EmptyPopulation);
        }
        let mut entries: Vec<(usize, u32)> = Vec::new();
        let mut sum: u32 = 0;
        let mut i: usize = 0;
        while i < count
            invariant
                count == weights.len(),
                i <= count,
                entries.len() == i,
                forall|k: int| 0 <= k < i ==> #[trigger] entries[k] == (k as usize, weights[k]),
                sum == weight_sum(weights@.take(i as int)),
            decreases count - i,
        {
            let weight = weights[i];
            proof {
                assert(weights@.take(i + 1).drop_last() == weights@.take(i as int));
                lemma_weight_sum_grows(weights@, i + 1);
            }
            if weight > u32::MAX - sum {
                return Err(PreconditionViolation::FitnessOverflow);
            }
            sum = sum + weight;
            entries.push((i, weight));
            i += 1;
        }
        proof {
            assert(weights@.take(count as int) == weights@);
            assert(weights_of(entries@) == weights@);
        }
        match weighted_entry(rng, &entries) {
            Ok(entry) => {
                proof {
                    let k = choose|k: int| 0 <= k < entries.len() && entries[k] == entry;
                    assert(entries[k] == (k as usize, weights[k]));
                }
                Ok(entry.0)
            },
            Err(_) => Ok(uniform_index(rng, count)),
        }
    }
}

/// The weights of a prefix add up to no more than those of the whole.
pub proof fn lemma_weight_sum_grows(weights: Seq<u32>, n: int)
    requires
        0 <= n <= weights.len(),
    ensures
        weight_sum(weights.take(n)) <= weight_sum(weights),
    decreases weights.len(),
{
    if n == weights.len() {
        assert(weights.take(n) == weights);
    } else {
        assert(weights.drop_last().take(n) == weights.take(n));
        lemma_weight_sum_grows(weights.drop_last(), n);
    }
}

/// `weights` holds, for each member of `population` in order, a score that
/// the member can report as its fitness.
pub open spec fn reported<I: Individual>(population: Seq<I>, weights: Seq<u32>) -> bool {
    &&& weights.len() == population.len()
    &&& forall|i: int|
        0 <= i < population.len() ==> call_ensures(
            I::fitness,
            (&population[i],),
            #[trigger] weights[i],
        )
}

/// `chosen` is a result that a spin of the wheel over the scores `weights`
/// of `population` can give: no member where the scores add up to more than
/// `u32::MAX`, else a member whose score is positive, or any member where
/// every score is zero.
pub open spec fn spun<I: Individual>(
    population: Seq<I>,
    weights: Seq<u32>,
    chosen: Result<&I, PreconditionViolation>,
) -> bool {
    &&& chosen is Ok <==> 0 < weights.len() && weight_sum(weights) <= u32::MAX
    &&& 0 < weights.len() && weight_sum(weights) > u32::MAX <==> chosen == Err::<&I, _>(
        PreconditionViolation::FitnessOverflow,
    )
    &&& chosen matches Ok(member) ==> exists|i: int|
        0 <= i < population.len() && #[trigger] population[i] == *member && (weights[i] > 0
            || weight_sum(weights) == 0)
}

impl<I: Individual> SelectionMethod<I> for RouletteWheelSelection {
    /// Reads the fitness of every member once, in order, then spins the
    /// wheel over those scores.
    fn select<'a>(&self, rng: &mut ChaCha8Rng, population: &'a [I]) -> (chosen: Result<
        &'a I,
        PreconditionViolation,
    >)
        ensures
            population.len() == 0 <==> chosen == Err::<&I, _>(
                PreconditionViolation::EmptyPopulation,
            ),
            chosen is Err ==> chosen == Err::<&I, _>(PreconditionViolation::EmptyPopulation)
                || chosen == Err::<&I, _>(PreconditionViolation::FitnessOverflow),
            chosen matches Ok(member) ==> population@.contains(*member),
            exists|weights: Seq<u32>|
                reported(population@, weights) && #[trigger] spun(population@, weights, chosen),
    {
        let mut weights: Vec<u32> = Vec::new();
        let mut i: usize = 0;
        while i < population.len()
            invariant
                i <= population.len(),
                weights.len() == i,
                forall|k: int|
                    0 <= k < i ==> call_ensures(
                        I::fitness,
                        (&population[k],),
                        #[trigger] weights[k],
                    ),
            decreases population.len() - i,
        {
            weights.push(population[i].fitness());
            i += 1;
        }
        let chosen = match Self::spin(rng, &weights) {
            Ok(index) => Ok(&population[index]),
            Err(violation) => Err(violation),
        };
        proof {
            assert(reported(population@, weights@));
            assert(spun(population@, weights@, chosen));
        }
        chosen
    }
}

} // verus!
