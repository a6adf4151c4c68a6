use evosim::brain::{evolve, AnimalIndividual, Brain};
use evosim::chromosome::{Chromosome, Individual};
use evosim::clock::GenerationClock;
use evosim::crossover::UniformCrossover;
use evosim::genetic::GeneticAlgorithm;
use evosim::mutation::MutationMethod;
use evosim::network::{LayerTopology, Network};
use evosim::selection::RoulleteWheelSelection;
use rand::SeedableRng;
use rand_chacha::ChaCha8Rng;

fn topology(sizes: &[usize]) -> Vec<LayerTopology> {
    sizes.iter().map(|&neurons| LayerTopology { neurons }).collect()
}

fn shape<W>(network: &Network<W>) -> Vec<Vec<usize>> {
    network
        .layers()
        .iter()
        .map(|l| l.neurons.iter().map(|n| n.weights.len()).collect())
        .collect()
}

struct KeepGenes;

impl MutationMethod<f32> for KeepGenes {
    fn mutate<R: rand::RngCore>(&self, _rng: &mut R, _child: &mut Chromosome<f32>) {}
}

#[test]
fn gene_count_of_topologies() {
    assert_eq!(Network::<f32>::gene_count(&topology(&[1, 2, 1])), Some(7));
    assert_eq!(Network::<f32>::gene_count(&topology(&[3, 2])), Some(8));
    assert_eq!(Network::<f32>::gene_count(&topology(&[9, 18, 2])), Some(218));
    assert_eq!(Network::<f32>::gene_count(&topology(&[4])), Some(0));
    assert_eq!(Network::<f32>::gene_count(&topology(&[])), Some(0));
    assert_eq!(Network::<f32>::gene_count(&topology(&[usize::MAX, 2])), None);
    assert_eq!(Network::<f32>::gene_count(&topology(&[usize::MAX, 0])), Some(0));
    assert_eq!(Network::<f32>::gene_count(&topology(&[1 << 40, 1 << 40])), None);
}

#[test]
fn from_weights_reads_weights_then_bias() {
    let t = topology(&[1, 2, 1]);
    let network = Network::from_weights(&t, &vec![1, 2, 3, 4, 5, 6, 7]);
    assert_eq!(shape(&network), vec![vec![1, 1], vec![2]]);
    let layers = network.layers();
    assert_eq!(layers[0].neurons[0].weights, vec![1]);
    assert_eq!(layers[0].neurons[0].bias, 2);
    assert_eq!(layers[0].neurons[1].weights, vec![3]);
    assert_eq!(layers[0].neurons[1].bias, 4);
    assert_eq!(layers[1].neurons[0].weights, vec![5, 6]);
    assert_eq!(layers[1].neurons[0].bias, 7);
}

#[test]
fn from_draws_reads_bias_then_weights() {
    let t = topology(&[1, 2, 1]);
    let draws = vec![-0.6255188f32, 0.67383957, 0.8181262, 0.26284897, 0.5238807, -0.53516835, 0.069369674];
    let network = Network::from_draws(&t, &draws);
    let layers = network.layers();
    assert_eq!(layers[0].neurons[0].bias, -0.6255188);
    assert_eq!(layers[0].neurons[0].weights, vec![0.67383957]);
    assert_eq!(layers[0].neurons[1].bias, 0.8181262);
    assert_eq!(layers[0].neurons[1].weights, vec![0.26284897]);
    assert_eq!(layers[1].neurons[0].bias, 0.5238807);
    assert_eq!(layers[1].neurons[0].weights, vec![-0.53516835, 0.069369674]);
    assert_eq!(
        network.weights(),
        vec![0.67383957, -0.6255188, 0.26284897, 0.8181262, -0.53516835, 0.069369674, 0.5238807]
    );
}

#[test]
fn weights_round_trip() {
    let t = topology(&[3, 4, 2]);
    let n = Network::<f32>::gene_count(&t).unwrap();
    let genes: Vec<f32> = (0..n).map(|i| i as f32 * 0.5 - 3.0).collect();
    let network = Network::from_weights(&t, &genes);
    assert_eq!(network.weights(), genes);
    let rebuilt = Network::from_weights(&t, &network.weights());
    assert_eq!(shape(&rebuilt), shape(&network));
    for (l1, l2) in rebuilt.layers().iter().zip(network.layers()) {
        for (n1, n2) in l1.neurons.iter().zip(&l2.neurons) {
            assert_eq!(n1.weights, n2.weights);
            assert_eq!(n1.bias.to_bits(), n2.bias.to_bits());
        }
    }
}

#[test]
fn brain_topology_follows_the_eye() {
    let t = Brain::<f32>::topology(9);
    assert_eq!(t.iter().map(|l| l.neurons).collect::<Vec<_>>(), vec![9, 18, 2]);
    let t = Brain::<f32>::topology(1);
    assert_eq!(t.iter().map(|l| l.neurons).collect::<Vec<_>>(), vec![1, 2, 2]);
}

#[test]
fn brain_chromosome_round_trip() {
    let count = Network::<f32>::gene_count(&Brain::<f32>::topology(3)).unwrap();
    assert_eq!(count, 6 * 4 + 2 * 7);
    let genes: Vec<f32> = (0..count).map(|i| i as f32).collect();
    let brain = Brain::from_chromosome(Chromosome::new(genes.clone()), 3);
    assert_eq!(shape(brain.network()), vec![vec![3; 6], vec![6; 2]]);
    assert_eq!(brain.as_chromosome().into_genes(), genes);
}

#[test]
fn brain_from_draws() {
    let count = Network::<f32>::gene_count(&Brain::<f32>::topology(2)).unwrap();
    let draws: Vec<f32> = (0..count).map(|i| i as f32).collect();
    let brain = Brain::from_draws(2, &draws);
    let first = &brain.network().layers()[0].neurons[0];
    assert_eq!(first.bias, 0.0);
    assert_eq!(first.weights, vec![1.0, 2.0]);
    assert_eq!(brain.as_chromosome().len(), count);
}

#[test]
fn default_eye_brain_has_218_genes() {
    let count = Network::<f32>::gene_count(&Brain::<f32>::topology(9)).unwrap();
    assert_eq!(count, 218);
    let brain = Brain::from_draws(9, &vec![0.5f32; count]);
    assert_eq!(brain.as_chromosome().len(), 218);
}

#[test]
fn animal_individual_carries_food_and_genes() {
    let count = Network::<f32>::gene_count(&Brain::<f32>::topology(2)).unwrap();
    let genes: Vec<f32> = (0..count).map(|i| i as f32).collect();
    let brain = Brain::from_chromosome(Chromosome::new(genes.clone()), 2);
    let individual = AnimalIndividual::from_brain(&brain, 4);
    assert_eq!(individual.fitness(), 4);
    assert_eq!(individual.chromosome().iter().copied().collect::<Vec<_>>(), genes);
    let newborn = AnimalIndividual::from_chromosome(Chromosome::new(genes.clone()));
    assert_eq!(newborn.fitness(), 0);
    assert_eq!(newborn.into_brain(2).as_chromosome().into_genes(), genes);
}

#[test]
fn evolve_keeps_population_size() {
    let ga = GeneticAlgorithm::new(RoulleteWheelSelection::new(), UniformCrossover::new(), KeepGenes);
    let mut rng = ChaCha8Rng::from_seed(Default::default());
    let count = Network::<f32>::gene_count(&Brain::<f32>::topology(3)).unwrap();
    for size in [1usize, 2, 7] {
        let mut brains: Vec<Brain<f32>> = (0..size)
            .map(|k| Brain::from_chromosome(Chromosome::new(vec![k as f32; count]), 3))
            .collect();
        for generation in 0..4 {
            let population: Vec<AnimalIndividual<f32>> = brains
                .iter()
                .enumerate()
                .map(|(k, b)| AnimalIndividual::from_brain(b, (k + generation) % 3))
                .collect();
            brains = evolve(&ga, &mut rng, &population, 3);
            assert_eq!(brains.len(), size);
            for b in &brains {
                assert_eq!(shape(b.network()), vec![vec![3; 6], vec![6; 2]]);
            }
        }
    }
}

#[test]
fn clock_counts_a_generation() {
    let mut clock = GenerationClock::new(2);
    assert_eq!(clock.age(), 0);
    assert_eq!(clock.generation_length(), 2);
    assert!(!clock.tick());
    assert_eq!(clock.age(), 1);
    assert!(!clock.tick());
    assert_eq!(clock.age(), 2);
    assert!(clock.tick());
    assert_eq!(clock.age(), 0);
    assert!(!clock.tick());
}

#[test]
fn clock_of_zero_length_replaces_every_tick() {
    let mut clock = GenerationClock::new(0);
    for _ in 0..3 {
        assert!(clock.tick());
        assert_eq!(clock.age(), 0);
    }
}
