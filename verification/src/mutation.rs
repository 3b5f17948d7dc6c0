//! Mutation: a chromosome gives a perturbed copy of itself.

use crate::error::PreconditionViolation;
use crate::random::chance;
use core::marker::PhantomData;
use rand_chacha::ChaCha8Rng;
use vstd::prelude::*;

verus! {

/// A way to perturb a chromosome. The chromosome handed in is left as it
/// is; the result is a chromosome of its own.
///
/// An implementation answers for its own result; a generation step takes
/// whatever it returns.
pub trait MutationMethod<T> {
    fn mutate(&self, rng: &mut ChaCha8Rng, chromosome: &Vec<T>) -> Vec<T>;
}

/// `mutated` is a chromosome that `method` can make of `chromosome`.
pub open spec fn mutated_by<T, M: MutationMethod<T>>(
    method: M,
    chromosome: Vec<T>,
    mutated: Vec<T>,
) -> bool {
    exists|rng: &mut ChaCha8Rng| call_ensures(M::mutate, (&method, rng, &chromosome), mutated)
}

/// `after` is a value that `perturbation` can return for the gene `before`.
pub open spec fn perturbed<T, P: Fn(&mut ChaCha8Rng, T) -> T>(
    perturbation: P,
    before: T,
    after: T,
) -> bool {
    exists|rng: &mut ChaCha8Rng| call_ensures(perturbation, (rng, before), after)
}

/// Per-gene mutation: every index is visited in order, and with the chance
/// `numerator / denominator` the gene there is replaced by what the
/// perturbation makes of it.
///
/// The perturbation owns the arithmetic on genes: it draws the signed
/// offset from the stream it is handed and adds it.
#[verifier::reject_recursive_types(T)]
pub struct GaussianMutation<T: Copy, P: Fn(&mut ChaCha8Rng, T) -> T> {
    numerator: u32,
    denominator: u32,
    perturbation: P,
    gene: PhantomData<T>,
}

impl<T: Copy, P: Fn(&mut ChaCha8Rng, T) -> T> GaussianMutation<T, P> {
    #[verifier::type_invariant]
    pub closed spec fn wf(self) -> bool {
        &&& 0 < self.denominator
        &&& self.numerator <= self.denominator
        &&& forall|rng: &mut ChaCha8Rng, gene: T| call_requires(self.perturbation, (rng, gene))
    }

    /// The numerator of the mutation chance.
    pub closed spec fn numerator(self) -> u32 {
        self.numerator
    }

    /// The denominator of the mutation chance.
    pub closed spec fn denominator(self) -> u32 {
        self.denominator
    }

    /// The perturbation applied to a gene that is hit.
    pub closed spec fn perturbation(self) -> P {
        self.perturbation
    }

    /// A mutation with the chance `numerator / denominator`, which must be a
    /// ratio between zero and one.
    pub fn new(numerator: u32, denominator: u32, perturbation: P) -> (method: Result<
        Self,
        PreconditionViolation,
    >)
        requires
            forall|rng: &mut ChaCha8Rng, gene: T| call_requires(perturbation, (rng, gene)),
        ensures
            method is Ok <==> 0 < denominator && numerator <= denominator,
            method is Err ==> method == Err::<Self, _>(PreconditionViolation::InvalidChance),
            method matches Ok(m) ==> m.wf() && m.numerator() == numerator && m.denominator()
                == denominator && m.perturbation() == perturbation,
    {
        if denominator == 0 || numerator > denominator {
            return Err(PreconditionViolation::InvalidChance);
        }
        Ok(GaussianMutation { numerator, denominator, perturbation, gene: PhantomData })
    }
}

impl<T: Copy, P: Fn(&mut ChaCha8Rng, T) -> T> MutationMethod<T> for GaussianMutation<T, P> {
    fn mutate(&self, rng: &mut ChaCha8Rng, chromosome: &Vec<T>) -> (mutated: Vec<T>)
        ensures
            mutated.len() == chromosome.len(),
            self.numerator() == 0 ==> mutated@ == chromosome@,
            forall|i: int|
                0 <= i < mutated.len() ==> mutated[i] == chromosome[i] || perturbed(
                    self.perturbation(),
                    chromosome[i],
                    #[trigger] mutated[i],
                ),
            self.numerator() == self.denominator() ==> forall|i: int|
                0 <= i < mutated.len() ==> perturbed(
                    self.perturbation(),
                    chromosome[i],
                    #[trigger] mutated[i],
                ),
    {
        proof {
            use_type_invariant(self);
        }
        let mut mutated: Vec<T> = Vec::new();
        let mut i: usize = 0;
        while i < chromosome.len()
            invariant
                self.wf(),
                i <= chromosome.len(),
                mutated.len() == i,
                self.numerator() == 0 ==> mutated@ == chromosome@.take(i as int),
                forall|k: int|
                    0 <= k < i ==> mutated[k] == chromosome[k] || perturbed(
                        self.perturbation(),
                        chromosome[k],
                        #[trigger] mutated[k],
                    ),
                self.numerator() == self.denominator() ==> forall|k: int|
                    0 <= k < i ==> perturbed(
                        self.perturbation(),
                        chromosome[k],
                        #[trigger] mutated[k],
                    ),
            decreases chromosome.len() - i,
        {
            let gene = chromosome[i];
            let next = if chance(rng, self.numerator, self.denominator) {
                (self.perturbation)(rng, gene)
            } else {
                gene
            };
            mutated.push(next);
            i += 1;
        }
        mutated
    }
}

} // verus!
