use std::cell::RefCell;
use std::collections::BTreeMap;
use std::iter::FromIterator;

use neuroevolution::CrossoverMethod;
use neuroevolution::GaussianMutation;
use neuroevolution::GeneticAlgorithm;
use neuroevolution::Individual;
use neuroevolution::MutationMethod;
use neuroevolution::PreconditionViolation;
use neuroevolution::RouletteWheelSelection;
use neuroevolution::SelectionMethod;
use neuroevolution::UniformCrossover;
use rand::Rng;
use rand::SeedableRng;
use rand_chacha::ChaCha8Rng;

#[derive(Clone, Debug, PartialEq)]
struct TestIndividual {
    fitness: u32,
    genes: Vec<f32>,
}

impl TestIndividual {
    fn new(fitness: u32) -> Self {
        Self {
            fitness,
            genes: Vec::new(),
        }
    }

    fn with_genes(fitness: u32, genes: Vec<f32>) -> Self {
        Self { fitness, genes }
    }
}

impl Individual for TestIndividual {
    type Gene = f32;

    fn fitness(&self) -> u32 {
        self.fitness
    }

    fn chromosome(&self) -> Vec<f32> {
        self.genes.clone()
    }

    fn with_chromosome(&self, chromosome: Vec<f32>) -> Result<Self, PreconditionViolation> {
        if chromosome.len() != self.genes.len() {
            return Err(PreconditionViolation::ChromosomeLengthMismatch);
        }
        Ok(Self {
            fitness: 0,
            genes: chromosome,
        })
    }
}

struct Truncation;

impl MutationMethod<f32> for Truncation {
    fn mutate(&self, _rng: &mut ChaCha8Rng, chromosome: &Vec<f32>) -> Vec<f32> {
        chromosome[..chromosome.len() - 1].to_vec()
    }
}

fn nudge(rng: &mut ChaCha8Rng, gene: f32) -> f32 {
    gene + 0.5 * rng.gen_range(-1.0..=1.0)
}

fn lift(_rng: &mut ChaCha8Rng, gene: f32) -> f32 {
    gene + 1.0
}

fn population() -> Vec<TestIndividual> {
    vec![
        TestIndividual::with_genes(2, vec![1.0, 1.0, 1.0, 1.0]),
        TestIndividual::with_genes(1, vec![2.0, 2.0, 2.0, 2.0]),
        TestIndividual::with_genes(4, vec![3.0, 3.0, 3.0, 3.0]),
        TestIndividual::with_genes(3, vec![4.0, 4.0, 4.0, 4.0]),
    ]
}

#[test]
fn roulette_wheel_selection() {
    let mut rng = ChaCha8Rng::from_seed(Default::default());

    let population = vec![
        TestIndividual::new(2),
        TestIndividual::new(1),
        TestIndividual::new(4),
        TestIndividual::new(3),
    ];

    let mut actual_histogram = BTreeMap::new();

    for _ in 0..1000 {
        let actual = RouletteWheelSelection::new()
            .select(&mut rng, &population)
            .unwrap();
        *actual_histogram.entry(actual.fitness() as i32).or_insert(0) += 1;
    }

    let expected_histogram = BTreeMap::from_iter(vec![(1, 98), (2, 202), (3, 278), (4, 422)]);

    assert_eq!(actual_histogram, expected_histogram);
}

#[test]
fn selection_rejects_an_empty_population() {
    let mut rng = ChaCha8Rng::from_seed(Default::default());
    let population: Vec<TestIndividual> = Vec::new();
    assert_eq!(
        RouletteWheelSelection::new().select(&mut rng, &population),
        Err(PreconditionViolation::EmptyPopulation)
    );
    assert_eq!(
        RouletteWheelSelection::spin(&mut rng, &Vec::new()),
        Err(PreconditionViolation::EmptyPopulation)
    );
}

#[test]
fn selection_rejects_fitness_beyond_its_range() {
    let mut rng = ChaCha8Rng::from_seed(Default::default());
    assert_eq!(
        RouletteWheelSelection::spin(&mut rng, &vec![u32::MAX, 1]),
        Err(PreconditionViolation::FitnessOverflow)
    );
    assert_eq!(
        RouletteWheelSelection::spin(&mut rng, &vec![1, 0, u32::MAX]),
        Err(PreconditionViolation::FitnessOverflow)
    );
    let population = vec![TestIndividual::new(u32::MAX), TestIndividual::new(1)];
    assert_eq!(
        RouletteWheelSelection::new().select(&mut rng, &population),
        Err(PreconditionViolation::FitnessOverflow)
    );
    assert_eq!(
        RouletteWheelSelection::spin(&mut rng, &vec![u32::MAX - 1, 1]).map(|index| index < 2),
        Ok(true)
    );
}

#[test]
fn selection_never_chooses_a_member_without_fitness() {
    let mut rng = ChaCha8Rng::from_seed(Default::default());
    for _ in 0..200 {
        assert_eq!(RouletteWheelSelection::spin(&mut rng, &vec![0, 5, 0]), Ok(1));
    }
    let mut seen = [0usize; 4];
    for _ in 0..200 {
        let index = RouletteWheelSelection::spin(&mut rng, &vec![0, 1, 0, 3]).unwrap();
        seen[index] += 1;
    }
    assert_eq!(seen[0], 0);
    assert_eq!(seen[2], 0);
    assert!(seen[1] > 0);
    assert!(seen[3] > seen[1]);
}

#[test]
fn selection_of_a_single_member_chooses_it() {
    let mut rng = ChaCha8Rng::from_seed(Default::default());
    let population = vec![TestIndividual::with_genes(9, vec![1.5])];
    for _ in 0..10 {
        let chosen = RouletteWheelSelection::new()
            .select(&mut rng, &population)
            .unwrap();
        assert_eq!(chosen, &population[0]);
    }
}

#[test]
fn selection_among_members_without_fitness_is_even() {
    let mut rng = ChaCha8Rng::from_seed(Default::default());
    let weights = vec![0, 0, 0, 0];
    let mut seen = [0usize; 4];
    for _ in 0..1000 {
        let index = RouletteWheelSelection::spin(&mut rng, &weights).unwrap();
        assert!(index < 4);
        seen[index] += 1;
    }
    for count in seen {
        assert!(count > 180 && count < 320);
    }

    let population = vec![TestIndividual::new(0), TestIndividual::new(0)];
    let chosen = RouletteWheelSelection::new().select(&mut rng, &population);
    assert_eq!(chosen, Ok(&TestIndividual::new(0)));
}

#[test]
fn selection_is_reproducible() {
    let run = || {
        let mut rng = ChaCha8Rng::seed_from_u64(11);
        (0..50)
            .map(|_| RouletteWheelSelection::spin(&mut rng, &vec![2, 1, 4, 3]).unwrap())
            .collect::<Vec<usize>>()
    };
    assert_eq!(run(), run());
}

#[test]
fn combine_takes_each_gene_from_the_parent_picked() {
    let parent_a = vec![1, 2, 3, 4, 5];
    let parent_b = vec![10, 20, 30, 40, 50];
    let picks = vec![true, false, false, true, true];
    assert_eq!(
        UniformCrossover::combine(&parent_a, &parent_b, &picks),
        Ok(vec![1, 20, 30, 4, 5])
    );
    assert_eq!(
        UniformCrossover::combine(&parent_a, &parent_b, &vec![false; 5]),
        Ok(parent_b.clone())
    );
    assert_eq!(
        UniformCrossover::combine(&parent_a, &parent_b, &vec![true; 5]),
        Ok(parent_a.clone())
    );
    let none: Vec<u32> = Vec::new();
    assert_eq!(
        UniformCrossover::combine(&none, &none, &Vec::new()),
        Ok(Vec::new())
    );
}

#[test]
fn combine_rejects_vectors_of_different_lengths() {
    let parent_a = vec![1, 2, 3];
    assert_eq!(
        UniformCrossover::combine(&parent_a, &vec![1, 2], &vec![true; 3]),
        Err(PreconditionViolation::ChromosomeLengthMismatch)
    );
    assert_eq!(
        UniformCrossover::combine(&parent_a, &vec![1, 2, 3], &vec![true; 2]),
        Err(PreconditionViolation::ChromosomeLengthMismatch)
    );
}

#[test]
fn crossover_keeps_the_length_and_takes_genes_from_the_parents() {
    let mut rng = ChaCha8Rng::from_seed(Default::default());
    let parent_a: Vec<f32> = (1..=100).map(|n| n as f32).collect();
    let parent_b: Vec<f32> = (1..=100).map(|n| -n as f32).collect();

    let child = UniformCrossover::new()
        .crossover(&mut rng, &parent_a, &parent_b)
        .unwrap();

    assert_eq!(child.len(), 100);
    let from_a = child.iter().zip(&parent_a).filter(|(c, p)| c == p).count();
    let from_b = child.iter().zip(&parent_b).filter(|(c, p)| c == p).count();
    assert_eq!(from_a + from_b, 100);
    assert!(from_a > 30 && from_b > 30);
}

#[test]
fn crossover_rejects_parents_of_different_lengths() {
    let mut rng = ChaCha8Rng::from_seed(Default::default());
    assert_eq!(
        UniformCrossover::new().crossover(&mut rng, &vec![1.0, 2.0], &vec![1.0]),
        Err(PreconditionViolation::ChromosomeLengthMismatch)
    );
    let empty: Vec<f32> = Vec::new();
    assert_eq!(
        UniformCrossover::new().crossover(&mut rng, &empty, &empty),
        Ok(Vec::new())
    );
}

#[test]
fn mutation_with_no_chance_changes_nothing() {
    let mut rng = ChaCha8Rng::from_seed(Default::default());
    let mutation = GaussianMutation::new(0, 1, nudge).unwrap();
    let chromosome = vec![1.0, 2.0, 3.0, 4.0, 5.0];
    assert_eq!(mutation.mutate(&mut rng, &chromosome), chromosome);
    let mutation = GaussianMutation::new(0, 100, nudge).unwrap();
    assert_eq!(mutation.mutate(&mut rng, &chromosome), chromosome);
}

#[test]
fn mutation_with_full_chance_changes_every_gene() {
    let mut rng = ChaCha8Rng::from_seed(Default::default());
    let chromosome = vec![1.0, 2.0, 3.0, 4.0, 5.0];

    let mutation = GaussianMutation::new(1, 1, lift).unwrap();
    assert_eq!(
        mutation.mutate(&mut rng, &chromosome),
        vec![2.0, 3.0, 4.0, 5.0, 6.0]
    );

    let mutation = GaussianMutation::new(7, 7, nudge).unwrap();
    let mutated = mutation.mutate(&mut rng, &chromosome);
    assert_eq!(mutated.len(), 5);
    for (after, before) in mutated.iter().zip(&chromosome) {
        assert!(after != before);
        assert!((after - before).abs() <= 0.5);
    }
}

#[test]
fn mutation_with_some_chance_changes_some_genes() {
    let mut rng = ChaCha8Rng::from_seed(Default::default());
    let chromosome = vec![0.0; 1000];
    let mutation = GaussianMutation::new(1, 4, lift).unwrap();
    let mutated = mutation.mutate(&mut rng, &chromosome);
    assert_eq!(mutated.len(), 1000);
    assert!(mutated.iter().all(|gene| *gene == 0.0 || *gene == 1.0));
    let changed = mutated.iter().filter(|gene| **gene == 1.0).count();
    assert!(changed > 180 && changed < 320);
    assert_eq!(chromosome, vec![0.0; 1000]);
}

#[test]
fn mutation_rejects_a_chance_that_is_no_ratio() {
    assert!(matches!(
        GaussianMutation::new(1, 0, lift),
        Err(PreconditionViolation::InvalidChance)
    ));
    assert!(matches!(
        GaussianMutation::new(0, 0, lift),
        Err(PreconditionViolation::InvalidChance)
    ));
    assert!(matches!(
        GaussianMutation::new(3, 2, lift),
        Err(PreconditionViolation::InvalidChance)
    ));
    assert!(GaussianMutation::new(2, 2, lift).is_ok());
}

#[test]
fn evolve_keeps_the_size_of_the_population() {
    let mut rng = ChaCha8Rng::from_seed(Default::default());
    let algorithm = GeneticAlgorithm::new(
        RouletteWheelSelection::new(),
        UniformCrossover::new(),
        GaussianMutation::new(1, 2, nudge).unwrap(),
    );
    let population = population();
    let next = algorithm.evolve(&mut rng, &population).unwrap();
    assert_eq!(next.len(), population.len());
    for child in &next {
        assert_eq!(child.genes.len(), 4);
        for gene in &child.genes {
            assert!(*gene >= 0.5 && *gene <= 4.5);
        }
    }

    let single = vec![TestIndividual::with_genes(5, vec![1.0, 2.0])];
    let algorithm = GeneticAlgorithm::new(
        RouletteWheelSelection::new(),
        UniformCrossover::new(),
        GaussianMutation::new(0, 1, nudge).unwrap(),
    );
    assert_eq!(
        algorithm.evolve(&mut rng, &single),
        Ok(vec![TestIndividual::with_genes(0, vec![1.0, 2.0])])
    );
}

#[test]
fn evolve_without_mutation_takes_every_gene_from_a_parent() {
    let mut rng = ChaCha8Rng::from_seed(Default::default());
    let algorithm = GeneticAlgorithm::new(
        RouletteWheelSelection::new(),
        UniformCrossover::new(),
        GaussianMutation::new(0, 1, nudge).unwrap(),
    );
    let next = algorithm.evolve(&mut rng, &population()).unwrap();
    assert_eq!(next.len(), 4);
    for child in &next {
        assert!(child
            .genes
            .iter()
            .all(|gene| [1.0, 2.0, 3.0, 4.0].contains(gene)));
    }
}

#[test]
fn evolve_is_reproducible() {
    let run = || {
        let mut rng = ChaCha8Rng::from_seed(Default::default());
        let algorithm = GeneticAlgorithm::new(
            RouletteWheelSelection::new(),
            UniformCrossover::new(),
            GaussianMutation::new(1, 2, nudge).unwrap(),
        );
        let first = algorithm.evolve(&mut rng, &population()).unwrap();
        let scored: Vec<TestIndividual> = first
            .iter()
            .map(|child| TestIndividual::with_genes(1, child.genes.clone()))
            .collect();
        let second = algorithm.evolve(&mut rng, &scored).unwrap();
        (first, second)
    };
    assert_eq!(run(), run());
}

#[test]
fn evolve_rejects_an_empty_population() {
    let mut rng = ChaCha8Rng::from_seed(Default::default());
    let algorithm = GeneticAlgorithm::new(
        RouletteWheelSelection::new(),
        UniformCrossover::new(),
        GaussianMutation::new(1, 2, nudge).unwrap(),
    );
    let population: Vec<TestIndividual> = Vec::new();
    assert_eq!(
        algorithm.evolve(&mut rng, &population),
        Err(PreconditionViolation::EmptyPopulation)
    );
}

#[test]
fn evolve_fails_as_a_whole_where_a_chromosome_does_not_fit() {
    let mut rng = ChaCha8Rng::from_seed(Default::default());
    let algorithm = GeneticAlgorithm::new(
        RouletteWheelSelection::new(),
        UniformCrossover::new(),
        Truncation,
    );
    assert_eq!(
        algorithm.evolve(&mut rng, &population()),
        Err(PreconditionViolation::ChromosomeLengthMismatch)
    );

    let uneven = vec![
        TestIndividual::with_genes(1, vec![1.0]),
        TestIndividual::with_genes(1, vec![1.0, 2.0]),
    ];
    let algorithm = GeneticAlgorithm::new(
        RouletteWheelSelection::new(),
        UniformCrossover::new(),
        GaussianMutation::new(0, 1, nudge).unwrap(),
    );
    let mut failures = 0;
    for _ in 0..20 {
        if algorithm.evolve(&mut rng, &uneven) == Err(PreconditionViolation::ChromosomeLengthMismatch)
        {
            failures += 1;
        }
    }
    assert!(failures > 0);
}

#[test]
fn evolve_fails_where_fitness_is_beyond_range() {
    let mut rng = ChaCha8Rng::from_seed(Default::default());
    let algorithm = GeneticAlgorithm::new(
        RouletteWheelSelection::new(),
        UniformCrossover::new(),
        GaussianMutation::new(0, 1, nudge).unwrap(),
    );
    let population = vec![
        TestIndividual::with_genes(u32::MAX, vec![1.0]),
        TestIndividual::with_genes(1, vec![1.0]),
    ];
    assert_eq!(
        algorithm.evolve(&mut rng, &population),
        Err(PreconditionViolation::FitnessOverflow)
    );
}

struct Counted<'a> {
    position: u32,
    log: &'a RefCell<Vec<u32>>,
}

impl<'a> Individual for Counted<'a> {
    type Gene = f32;

    fn fitness(&self) -> u32 {
        self.log.borrow_mut().push(self.position);
        self.position + 1
    }

    fn chromosome(&self) -> Vec<f32> {
        Vec::new()
    }

    fn with_chromosome(&self, _chromosome: Vec<f32>) -> Result<Self, PreconditionViolation> {
        Ok(Counted {
            position: self.position,
            log: self.log,
        })
    }
}

#[test]
fn selection_reads_each_score_once_and_in_order() {
    let log = RefCell::new(Vec::new());
    let population: Vec<Counted> = (0..5)
        .map(|position| Counted {
            position,
            log: &log,
        })
        .collect();
    let mut rng = ChaCha8Rng::from_seed(Default::default());
    let chosen = RouletteWheelSelection::new()
        .select(&mut rng, &population)
        .unwrap();
    assert!(chosen.position < 5);
    assert_eq!(*log.borrow(), vec![0, 1, 2, 3, 4]);
}
