//! The genetic algorithm: one call breeds the next generation.

use crate::crossover::crossed;
use crate::crossover::refused;
use crate::crossover::CrossoverMethod;
use crate::error::PreconditionViolation;
use crate::mutation::mutated_by;
use crate::mutation::MutationMethod;
use crate::selection::selected;
use crate::selection::SelectionMethod;
use rand_chacha::ChaCha8Rng;
use vstd::prelude::*;

verus! {

/// A member of a population: it has a fitness score and can be turned into
/// a chromosome and rebuilt from one.
pub trait Individual: Sized {
    /// The scalar a chromosome is made of.
    type Gene: Copy;

    /// The fitness score, a weight in selection. The caller evaluates it
    /// before a generation step.
    fn fitness(&self) -> u32;

    /// The parameters of this individual as one flat sequence.
    fn chromosome(&self) -> Vec<Self::Gene>;

    /// A new individual of the same structure as this one, with the given
    /// parameters.
    fn with_chromosome(&self, chromosome: Vec<Self::Gene>) -> Result<Self, PreconditionViolation>;
}

/// `parent_a` and `parent_b` are members that `selection` can choose from
/// `population`, and `chromosome_a` and `chromosome_b` are chromosomes that
/// they can report.
pub open spec fn paired<'a, I: Individual, S: SelectionMethod<I>>(
    selection: S,
    population: &'a [I],
    parent_a: &'a I,
    parent_b: &'a I,
    chromosome_a: Vec<I::Gene>,
    chromosome_b: Vec<I::Gene>,
) -> bool {
    &&& selected(selection, population, Ok::<&I, PreconditionViolation>(parent_a))
    &&& selected(selection, population, Ok::<&I, PreconditionViolation>(parent_b))
    &&& call_ensures(I::chromosome, (parent_a,), chromosome_a)
    &&& call_ensures(I::chromosome, (parent_b,), chromosome_b)
}

/// `outcome` is what one breeding step over `population` can give.
///
/// Two parents are selected, the second after the first; both report their
/// chromosomes; `crossover` makes a child chromosome of the two; `mutation`
/// makes a chromosome of that; and the first parent rebuilds itself with
/// it. The step gives the individual so built, or the first violation that
/// a selection, the crossover or the rebuilding reports.
pub open spec fn bred<
    'a,
    I: Individual,
    S: SelectionMethod<I>,
    C: CrossoverMethod<I::Gene>,
    M: MutationMethod<I::Gene>,
>(
    selection: S,
    crossover: C,
    mutation: M,
    population: &'a [I],
    outcome: Result<I, PreconditionViolation>,
) -> bool {
    ||| outcome matches Err(violation) && selected(
        selection,
        population,
        Err::<&I, PreconditionViolation>(violation),
    )
    ||| exists|
        parent_a: &'a I,
        parent_b: &'a I,
        chromosome_a: Vec<I::Gene>,
        chromosome_b: Vec<I::Gene>,
    |
        {
            &&& #[trigger] paired(
                selection,
                population,
                parent_a,
                parent_b,
                chromosome_a,
                chromosome_b,
            )
            &&& finished(crossover, mutation, parent_a, chromosome_a, chromosome_b, outcome)
        }
}

/// `outcome` is what the rest of a breeding step can give once the parents
/// have reported `chromosome_a` and `chromosome_b`.
pub open spec fn finished<I: Individual, C: CrossoverMethod<I::Gene>, M: MutationMethod<I::Gene>>(
    crossover: C,
    mutation: M,
    parent_a: &I,
    chromosome_a: Vec<I::Gene>,
    chromosome_b: Vec<I::Gene>,
    outcome: Result<I, PreconditionViolation>,
) -> bool {
    ||| outcome matches Err(violation) && refused(crossover, chromosome_a, chromosome_b, violation)
    ||| exists|crossing: Vec<I::Gene>, mutated: Vec<I::Gene>|
        {
            &&& crossed(crossover, chromosome_a, chromosome_b, crossing)
            &&& #[trigger] mutated_by(mutation, crossing, mutated)
            &&& call_ensures(I::with_chromosome, (parent_a, mutated), outcome)
        }
}

/// A genetic algorithm, made of the three methods a generation step uses.
pub struct GeneticAlgorithm<S, C, M> {
    selection_method: S,
    crossover_method: C,
    mutation_method: M,
}

impl<S, C, M> GeneticAlgorithm<S, C, M> {
    pub closed spec fn selection_method(self) -> S {
        self.selection_method
    }

    pub closed spec fn crossover_method(self) -> C {
        self.crossover_method
    }

    pub closed spec fn mutation_method(self) -> M {
        self.mutation_method
    }

    pub fn new(selection_method: S, crossover_method: C, mutation_method: M) -> (algorithm: Self)
        ensures
            algorithm.selection_method() == selection_method,
            algorithm.crossover_method() == crossover_method,
            algorithm.mutation_method() == mutation_method,
    {
        GeneticAlgorithm { selection_method, crossover_method, mutation_method }
    }

    /// Breeds the next generation, which has as many members as this one.
    ///
    /// For each member to be: two parents are selected (they may be the
    /// same), their chromosomes are crossed over, the child chromosome is
    /// mutated, and a new individual with the structure of the first parent
    /// is built from it. All draws come from `rng`, in that order.
    ///
    /// The step is atomic: where any method or individual reports a
    /// violation, that violation is returned and no generation is.
    pub fn evolve<I>(&self, rng: &mut ChaCha8Rng, population: &[I]) -> (next: Result<
        Vec<I>,
        PreconditionViolation,
    >) where
        I: Individual,
        S: SelectionMethod<I>,
        C: CrossoverMethod<I::Gene>,
        M: MutationMethod<I::Gene>,

        ensures
            population.len() == 0 ==> next == Err::<Vec<I>, _>(
                PreconditionViolation::EmptyPopulation,
            ),
            next matches Ok(generation) ==> generation.len() == population.len(),
            next matches Ok(generation) ==> forall|k: int|
                0 <= k < generation.len() ==> bred(
                    self.selection_method(),
                    self.crossover_method(),
                    self.mutation_method(),
                    population,
                    Ok::<I, PreconditionViolation>(#[trigger] generation[k]),
                ),
            next matches Err(violation) ==> population.len() == 0 || bred(
                self.selection_method(),
                self.crossover_method(),
                self.mutation_method(),
                population,
                Err::<I, PreconditionViolation>(violation),
            ),
    {
        let size = population.len();
        if size == 0 {
            return Err(PreconditionViolation::EmptyPopulation);
        }
        let mut generation: Vec<I> = Vec::new();
        let mut slot: usize = 0;
        while slot < size
            invariant
                size == population.len(),
                slot <= size,
                generation.len() == slot,
                forall|k: int|
                    0 <= k < slot ==> bred(
                        self.selection_method(),
                        self.crossover_method(),
                        self.mutation_method(),
                        population,
                        Ok::<I, PreconditionViolation>(#[trigger] generation[k]),
                    ),
            decreases size - slot,
        {
            match self.breed(rng, population) {
                Ok(child) => {
                    generation.push(child);
                },
                Err(violation) => {
                    return Err(violation);
                },
            }
            slot += 1;
        }
        Ok(generation)
    }

    /// One breeding step: selects two parents and builds their child.
    fn breed<I>(&self, rng: &mut ChaCha8Rng, population: &[I]) -> (outcome: Result<
        I,
        PreconditionViolation,
    >) where
        I: Individual,
        S: SelectionMethod<I>,
        C: CrossoverMethod<I::Gene>,
        M: MutationMethod<I::Gene>,

        ensures
            bred(
                self.selection_method(),
                self.crossover_method(),
                self.mutation_method(),
                population,
                outcome,
            ),
    {
        let parent_a = match self.selection_method.select(rng, population) {
            Ok(parent) => parent,
            Err(violation) => {
                assert(selected(
                    self.selection_method(),
                    population,
                    Err::<&I, PreconditionViolation>(violation),
                ));
                return Err(violation);
            },
        };
        assert(selected(
            self.selection_method(),
            population,
            Ok::<&I, PreconditionViolation>(parent_a),
        ));
        let parent_b = match self.selection_method.select(rng, population) {
            Ok(parent) => parent,
            Err(violation) => {
                assert(selected(
                    self.selection_method(),
                    population,
                    Err::<&I, PreconditionViolation>(violation),
                ));
                return Err(violation);
            },
        };
        assert(selected(
            self.selection_method(),
            population,
            Ok::<&I, PreconditionViolation>(parent_b),
        ));
        let chromosome_a = parent_a.chromosome();
        let chromosome_b = parent_b.chromosome();
        assert(paired(
            self.selection_method(),
            population,
            parent_a,
            parent_b,
            chromosome_a,
            chromosome_b,
        ));
        let crossing = match self.crossover_method.crossover(rng, &chromosome_a, &chromosome_b) {
            Ok(chromosome) => chromosome,
            Err(violation) => {
                assert(refused(self.crossover_method(), chromosome_a, chromosome_b, violation));
                return Err(violation);
            },
        };
        assert(crossed(self.crossover_method(), chromosome_a, chromosome_b, crossing));
        let mutated = self.mutation_method.mutate(rng, &crossing);
        assert(mutated_by(self.mutation_method(), crossing, mutated));
        let outcome = parent_a.with_chromosome(mutated);
        assert(finished(
            self.crossover_method(),
            self.mutation_method(),
            parent_a,
            chromosome_a,
            chromosome_b,
            outcome,
        ));
        outcome
    }
}

} // verus!
