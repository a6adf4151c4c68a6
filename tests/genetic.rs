use evosim::brain::AnimalIndividual;
use evosim::chromosome::{Chromosome, Individual};
use evosim::crossover::{CrossoverMethod, UniformCrossover};
use evosim::genetic::GeneticAlgorithm;
use evosim::mutation::MutationMethod;
use evosim::selection::{RoulleteWheelSelection, SelectionMethod};
use rand::SeedableRng;
use rand_chacha::ChaCha8Rng;

type TestIndividual = AnimalIndividual<f32>;

fn individual(fitness: usize) -> TestIndividual {
    AnimalIndividual::new(fitness, Chromosome::new(vec![fitness as f32]))
}

fn with_genes(genes: Vec<f32>) -> TestIndividual {
    let fitness = genes.iter().filter(|g| **g > 0.0).count();
    AnimalIndividual::new(fitness, Chromosome::new(genes))
}

/// Leaves every gene as it is.
struct KeepGenes;

impl MutationMethod<f32> for KeepGenes {
    fn mutate<R: rand::RngCore>(&self, _rng: &mut R, _child: &mut Chromosome<f32>) {}
}

/// Negates every gene.
struct Negate;

impl MutationMethod<f32> for Negate {
    fn mutate<R: rand::RngCore>(&self, _rng: &mut R, child: &mut Chromosome<f32>) {
        for g in child.genes.iter_mut() {
            *g = -*g;
        }
    }
}

fn parents() -> (Chromosome<f32>, Chromosome<f32>) {
    let a = Chromosome::new((1..=100).map(|n| n as f32).collect());
    let b = Chromosome::new((1..=100).map(|n| -n as f32).collect());
    (a, b)
}

#[test]
fn uniform_crossover_test() {
    let mut rng = ChaCha8Rng::from_seed(Default::default());
    let (parent_a, parent_b) = parents();

    let child = UniformCrossover::new().crossover(&mut rng, &parent_a, &parent_b);

    let delta_a = child
        .iter()
        .zip(parent_a.iter())
        .filter(|(c, p)| c != p)
        .count();

    assert_eq!(delta_a, 49);
}

#[test]
fn crossover_with_follows_the_tosses() {
    let a = Chromosome::new(vec![1, 2, 3, 4]);
    let b = Chromosome::new(vec![5, 6, 7, 8]);
    let child = UniformCrossover::new().crossover_with(&vec![true, false, false, true], &a, &b);
    assert_eq!(child.into_genes(), vec![1, 6, 7, 4]);
}

#[test]
fn crossover_of_empty_parents_is_empty() {
    let mut rng = ChaCha8Rng::from_seed(Default::default());
    let a: Chromosome<i32> = Chromosome::new(vec![]);
    let b: Chromosome<i32> = Chromosome::new(vec![]);
    let child = UniformCrossover::new().crossover(&mut rng, &a, &b);
    assert_eq!(child.len(), 0);
}

#[test]
fn crossover_child_splits_between_disjoint_parents() {
    let (parent_a, parent_b) = parents();
    let mut from_a = 0;
    for seed in 0..50u64 {
        let mut rng = ChaCha8Rng::seed_from_u64(seed);
        let child = UniformCrossover::new().crossover(&mut rng, &parent_a, &parent_b);
        assert_eq!(child.len(), 100);
        let same_a = child.iter().zip(parent_a.iter()).filter(|(c, p)| c == p).count();
        let same_b = child.iter().zip(parent_b.iter()).filter(|(c, p)| c == p).count();
        assert_eq!(same_a + same_b, 100);
        from_a += same_a;
    }
    // 5000 fair tosses: the share of the first parent stays near one half.
    assert!(from_a > 2300 && from_a < 2700, "{}", from_a);
}

#[test]
fn crossover_is_reproducible_for_a_seed() {
    let (parent_a, parent_b) = parents();
    let mut rng1 = ChaCha8Rng::seed_from_u64(7);
    let mut rng2 = ChaCha8Rng::seed_from_u64(7);
    let c1 = UniformCrossover::new().crossover(&mut rng1, &parent_a, &parent_b);
    let c2 = UniformCrossover::new().crossover(&mut rng2, &parent_a, &parent_b);
    assert_eq!(c1.into_genes(), c2.into_genes());
}

#[test]
fn roulette_wheel_follows_fitness() {
    let method = RoulleteWheelSelection::new();
    let mut rng = ChaCha8Rng::from_seed(Default::default());
    let population = vec![individual(1), individual(2), individual(3), individual(5)];

    let mut histogram = [0usize; 6];
    for _ in 0..1000 {
        histogram[method.select(&mut rng, &population).fitness()] += 1;
    }

    // fitness => times selected under this seed (proportional to 1:2:3:5)
    assert_eq!(histogram, [0, 91, 169, 276, 0, 464]);
}

#[test]
fn roulette_wheel_never_picks_zero_fitness() {
    let method = RoulleteWheelSelection::new();
    let mut rng = ChaCha8Rng::seed_from_u64(3);
    let population = vec![individual(0), individual(4), individual(0), individual(0)];
    for _ in 0..200 {
        assert_eq!(method.select(&mut rng, &population).fitness(), 4);
    }
}

#[test]
fn roulette_wheel_falls_back_to_uniform_on_zero_fitness() {
    let method = RoulleteWheelSelection::new();
    let mut rng = ChaCha8Rng::seed_from_u64(5);
    let population: Vec<TestIndividual> = (0..4)
        .map(|i| AnimalIndividual::new(0, Chromosome::new(vec![i as f32])))
        .collect();
    let mut seen = [0usize; 4];
    for _ in 0..400 {
        let picked = method.select(&mut rng, &population);
        seen[*picked.chromosome().index(0) as usize] += 1;
    }
    assert!(seen.iter().all(|n| *n > 50), "{:?}", seen);
}

#[test]
fn roulette_wheel_single_member() {
    let method = RoulleteWheelSelection::new();
    let mut rng = ChaCha8Rng::seed_from_u64(9);
    let population = vec![individual(0)];
    assert_eq!(method.select(&mut rng, &population).fitness(), 0);
}

#[test]
fn iterate_keeps_population_size_and_gene_count() {
    let ga = GeneticAlgorithm::new(RoulleteWheelSelection::new(), UniformCrossover::new(), KeepGenes);
    let mut rng = ChaCha8Rng::from_seed(Default::default());
    let mut population: Vec<TestIndividual> = vec![
        with_genes(vec![0.0, 0.0, 0.0, 0.0]),
        with_genes(vec![0.7, 2.1, -0.5, 3.3]),
        with_genes(vec![1.3, 1.7, 2.4, 0.0]),
        with_genes(vec![-0.1, 0.0, 2.1, 1.1]),
        with_genes(vec![0.3, 0.9, 2.0, 2.8]),
    ];
    let genes: Vec<f32> = population.iter().flat_map(|i| i.chromosome().iter().copied()).collect();
    for _ in 0..10 {
        population = ga.iterate(&mut rng, &population);
        assert_eq!(population.len(), 5);
        for member in &population {
            assert_eq!(member.chromosome().len(), 4);
            // Without mutation every gene is one a parent had at that position.
            for (k, g) in member.chromosome().iter().enumerate() {
                assert!(genes.iter().skip(k).step_by(4).any(|p| p == g));
            }
        }
    }
}

#[test]
fn iterate_applies_the_mutation() {
    let ga = GeneticAlgorithm::new(RoulleteWheelSelection::new(), UniformCrossover::new(), Negate);
    let mut rng = ChaCha8Rng::seed_from_u64(1);
    let population = vec![
        with_genes(vec![1.0, 2.0]),
        with_genes(vec![3.0, 4.0]),
    ];
    let next = ga.iterate(&mut rng, &population);
    assert_eq!(next.len(), 2);
    for member in &next {
        assert!(member.chromosome().iter().all(|g| *g < 0.0));
        assert_eq!(member.fitness(), 0);
    }
}

#[test]
fn iterate_on_empty_population() {
    let ga = GeneticAlgorithm::new(RoulleteWheelSelection::new(), UniformCrossover::new(), KeepGenes);
    let mut rng = ChaCha8Rng::seed_from_u64(1);
    let population: Vec<TestIndividual> = vec![];
    assert!(ga.iterate(&mut rng, &population).is_empty());
}

#[test]
fn chromosome_accessors() {
    let c = Chromosome::new(vec![1.5f32, -2.0, 0.25]);
    assert_eq!(c.len(), 3);
    assert_eq!(*c.index(1), -2.0);
    assert_eq!(c.iter().copied().collect::<Vec<f32>>(), vec![1.5, -2.0, 0.25]);
    assert_eq!(c.into_genes(), vec![1.5, -2.0, 0.25]);
}
