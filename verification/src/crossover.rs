//! Crossover: two parent chromosomes give one child.

use crate::error::PreconditionViolation;
use crate::random::chance;
use rand_chacha::ChaCha8Rng;
use vstd::prelude::*;

verus! {

/// A way to combine two parent chromosomes into one child chromosome.
///
/// An implementation answers for its own result; a generation step takes
/// whatever it returns and fails as a whole where it fails.
pub trait CrossoverMethod<T> {
    fn crossover(&self, rng: &mut ChaCha8Rng, parent_a: &Vec<T>, parent_b: &Vec<T>) -> Result<
        Vec<T>,
        PreconditionViolation,
    >;
}

/// `child` is a chromosome that `method` can make of the two parents.
pub open spec fn crossed<T, C: CrossoverMethod<T>>(
    method: C,
    parent_a: Vec<T>,
    parent_b: Vec<T>,
    child: Vec<T>,
) -> bool {
    exists|rng: &mut ChaCha8Rng|
        call_ensures(
            C::crossover,
            (&method, rng, &parent_a, &parent_b),
            Ok::<Vec<T>, PreconditionViolation>(child),
        )
}

/// `violation` is a violation that `method` can report for the two
/// parents.
pub open spec fn refused<T, C: CrossoverMethod<T>>(
    method: C,
    parent_a: Vec<T>,
    parent_b: Vec<T>,
    violation: PreconditionViolation,
) -> bool {
    exists|rng: &mut ChaCha8Rng|
        call_ensures(
            C::crossover,
            (&method, rng, &parent_a, &parent_b),
            Err::<Vec<T>, PreconditionViolation>(violation),
        )
}

/// The child of `parent_a` and `parent_b` under the decisions `picks`:
/// gene `i` is that of `parent_a` where `picks[i]` holds, else that of
/// `parent_b`.
pub open spec fn uniform_child<T>(parent_a: Seq<T>, parent_b: Seq<T>, picks: Seq<bool>) -> Seq<T> {
    Seq::new(
        parent_a.len(),
        |i: int|
            if picks[i] {
                parent_a[i]
            } else {
                parent_b[i]
            },
    )
}

/// Uniform crossover: each gene of the child comes from either parent with
/// equal chance, one decision per index, from left to right.
#[derive(Clone, Copy, Debug, PartialEq, Eq, Structural)]
pub struct UniformCrossover;

impl UniformCrossover {
    pub fn new() -> (method: Self)
        ensures
            method == UniformCrossover,
    {
        UniformCrossover
    }

    /// Builds the child that the decisions `picks` select from two parents.
    /// The three vectors must be equally long.
    pub fn combine<T: Copy>(parent_a: &Vec<T>, parent_b: &Vec<T>, picks: &Vec<bool>) -> (child:
        Result<Vec<T>, PreconditionViolation>)
        ensures
            child is Ok <==> parent_a.len() == parent_b.len() && parent_a.len() == picks.len(),
            child is Err ==> child == Err::<Vec<T>, _>(
                PreconditionViolation::ChromosomeLengthMismatch,
            ),
            child matches Ok(genes) ==> genes.len() == parent_a.len() && genes@ == uniform_child(
                parent_a@,
                parent_b@,
                picks@,
            ),
    {
        let length = parent_a.len();
        if parent_b.len() != length || picks.len() != length {
            return Err(PreconditionViolation::ChromosomeLengthMismatch);
        }
        let mut genes: Vec<T> = Vec::new();
        let mut i: usize = 0;
        while i < length
            invariant
                length == parent_a.len(),
                length == parent_b.len(),
                length == picks.len(),
                i <= length,
                genes@ == uniform_child(parent_a@, parent_b@, picks@).take(i as int),
            decreases length - i,
        {
            let gene = if picks[i] {
                parent_a[i]
            } else {
                parent_b[i]
            };
            genes.push(gene);
            i += 1;
        }
        Ok(genes)
    }
}

impl<T: Copy> CrossoverMethod<T> for UniformCrossover {
    /// Draws one fair decision per index, then combines the parents by them.
    /// Nothing is drawn where the parents differ in length.
    fn crossover(&self, rng: &mut ChaCha8Rng, parent_a: &Vec<T>, parent_b: &Vec<T>) -> (child:
        Result<Vec<T>, PreconditionViolation>)
        ensures
            child is Ok <==> parent_a.len() == parent_b.len(),
            child is Err ==> child == Err::<Vec<T>, _>(
                PreconditionViolation::ChromosomeLengthMismatch,
            ),
            child matches Ok(genes) ==> genes.len() == parent_a.len() && exists|picks: Seq<bool>|
                picks.len() == parent_a.len() && genes@ == uniform_child(
                    parent_a@,
                    parent_b@,
                    picks,
                ),
    {
        let length = parent_a.len();
        if parent_b.len() != length {
            return Err(PreconditionViolation::ChromosomeLengthMismatch);
        }
        let mut picks: Vec<bool> = Vec::new();
        let mut i: usize = 0;
        while i < length
            invariant
                i <= length,
                picks.len() == i,
            decreases length - i,
        {
            picks.push(chance(rng, 1, 2));
            i += 1;
        }
        Self::combine(parent_a, parent_b, &picks)
    }
}

} // verus!
