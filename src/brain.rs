use vstd::prelude::*;

use crate::chromosome::{fitnesses, total, uniform_length, Chromosome, Individual};
use crate::crossover::CrossoverMethod;
use crate::genetic::GeneticAlgorithm;
use crate::mutation::MutationMethod;
use crate::network::{gene_count, lemma_gene_count, sizes, LayerTopology, Network};
use crate::selection::SelectionMethod;

verus! {

/// The layer sizes of an animal's brain for an eye of `photoreceptors`
/// photoreceptors: one input per photoreceptor, a hidden layer twice as
/// wide, and two outputs (speed and rotation).
pub open spec fn brain_sizes(photoreceptors: nat) -> Seq<usize> {
    seq![photoreceptors as usize, (2 * photoreceptors) as usize, 2]
}

/// How many genes the brain for an eye of `photoreceptors` photoreceptors has.
pub open spec fn brain_genes(photoreceptors: nat) -> nat {
    gene_count(brain_sizes(photoreceptors))
}

/// In closed form: the hidden layer has `2p` neurons of `p + 1` parameters
/// and the output layer 2 neurons of `2p + 1` (218 for 9 photoreceptors).
pub proof fn lemma_brain_genes(photoreceptors: nat)
    requires
        photoreceptors <= usize::MAX / 2,
    ensures
        brain_genes(photoreceptors) == 2 * photoreceptors * (photoreceptors + 1) + 2 * (2
            * photoreceptors + 1),
{
    let s = brain_sizes(photoreceptors);
    assert(s.drop_last() =~= seq![photoreceptors as usize, (2 * photoreceptors) as usize]);
    assert(s.drop_last().drop_last() =~= seq![photoreceptors as usize]);
    assert(gene_count(s.drop_last().drop_last()) == 0);
    assert(gene_count(s.drop_last()) == 2 * photoreceptors * (photoreceptors + 1));
}

/// A brain wired for an eye has the gene count of such brains.
pub proof fn lemma_wired_gene_count<W>(brain: Brain<W>, photoreceptors: nat)
    requires
        brain.wired_for(photoreceptors),
    ensures
        brain.genes().len() == brain_genes(photoreceptors),
{
    lemma_gene_count(brain.network_view(), brain_sizes(photoreceptors));
}

/// The network that drives an animal.
pub struct Brain<W> {
    neural_network: Network<W>,
}

impl<W> Brain<W> {
    pub closed spec fn network_view(&self) -> Network<W> {
        self.neural_network
    }

    /// Whether the brain is wired for an eye of `photoreceptors`
    /// photoreceptors.
    pub open spec fn wired_for(&self, photoreceptors: nat) -> bool {
        self.network_view().fits(brain_sizes(photoreceptors))
    }

    /// The brain's genes: its network's parameters in chromosome order.
    pub open spec fn genes(&self) -> Seq<W> {
        self.network_view().genes()
    }

    /// The layer sizes of a brain for an eye of `photoreceptors`
    /// photoreceptors.
    pub fn topology(photoreceptors: usize) -> (r: [LayerTopology; 3])
        requires
            photoreceptors <= usize::MAX / 2,
        ensures
            sizes(r@) == brain_sizes(photoreceptors as nat),
    {
        let r = [
            LayerTopology { neurons: photoreceptors },
            LayerTopology { neurons: 2 * photoreceptors },
            LayerTopology { neurons: 2 },
        ];
        assert(sizes(r@) =~= brain_sizes(photoreceptors as nat));
        r
    }

    /// The brain for an eye of `photoreceptors` photoreceptors whose
    /// parameters, in the order random initialisation draws them, are `draws`.
    pub fn from_draws(photoreceptors: usize, draws: &Vec<W>) -> (r: Self)
        where
            W: Copy,
        requires
            photoreceptors <= usize::MAX / 2,
            draws@.len() == brain_genes(photoreceptors as nat),
        ensures
            r.wired_for(photoreceptors as nat),
            r.network_view().draws() == draws@,
            r.genes().len() == brain_genes(photoreceptors as nat),
    {
        let topology = Self::topology(photoreceptors);
        let r = Brain { neural_network: Network::from_draws(&topology, draws) };
        proof {
            lemma_wired_gene_count(r, photoreceptors as nat);
        }
        r
    }

    /// The brain for an eye of `photoreceptors` photoreceptors whose genes
    /// are those of `chromosome`.
    pub fn from_chromosome(chromosome: Chromosome<W>, photoreceptors: usize) -> (r: Self)
        where
            W: Copy,
        requires
            photoreceptors <= usize::MAX / 2,
            chromosome@.len() == brain_genes(photoreceptors as nat),
        ensures
            r.wired_for(photoreceptors as nat),
            r.genes() == chromosome@,
    {
        let topology = Self::topology(photoreceptors);
        Brain { neural_network: Network::from_weights(&topology, &chromosome.genes) }
    }

    /// The brain's genes as a chromosome.
    pub fn as_chromosome(&self) -> (r: Chromosome<W>)
        where
            W: Copy,
        ensures
            r@ == self.genes(),
    {
        Chromosome::new(self.neural_network.weights())
    }

    /// The network, for evaluating the brain.
    pub fn network(&self) -> (r: &Network<W>)
        ensures
            *r == self.network_view(),
    {
        &self.neural_network
    }
}

/// An animal as the genetic algorithm sees it: the food it ate and its
/// brain's genes.
pub struct AnimalIndividual<W> {
    fitness: usize,
    chromosome: Chromosome<W>,
}

impl<W> AnimalIndividual<W> {
    /// An individual of fitness `food_consumed` carrying `chromosome`.
    pub fn new(food_consumed: usize, chromosome: Chromosome<W>) -> (r: Self)
        ensures
            r.fitness_of() == food_consumed,
            r.genes_of() == chromosome@,
    {
        AnimalIndividual { fitness: food_consumed, chromosome }
    }

    /// The individual of an animal with this brain that ate `food_consumed`
    /// pieces of food.
    pub fn from_brain(brain: &Brain<W>, food_consumed: usize) -> (r: Self)
        where
            W: Copy,
        ensures
            r.fitness_of() == food_consumed,
            r.genes_of() == brain.genes(),
    {
        Self::new(food_consumed, brain.as_chromosome())
    }

    /// The brain that the individual's genes encode, for an eye of
    /// `photoreceptors` photoreceptors.
    pub fn into_brain(self, photoreceptors: usize) -> (r: Brain<W>)
        where
            W: Copy,
        requires
            photoreceptors <= usize::MAX / 2,
            self.genes_of().len() == brain_genes(photoreceptors as nat),
        ensures
            r.wired_for(photoreceptors as nat),
            r.genes() == self.genes_of(),
    {
        Brain::from_chromosome(self.chromosome, photoreceptors)
    }
}

impl<W> Individual<W> for AnimalIndividual<W> {
    closed spec fn fitness_of(&self) -> usize {
        self.fitness
    }

    closed spec fn genes_of(&self) -> Seq<W> {
        self.chromosome@
    }

    fn fitness(&self) -> (r: usize) {
        self.fitness
    }

    fn chromosome(&self) -> (r: &Chromosome<W>) {
        &self.chromosome
    }

    /// A newborn has eaten nothing yet.
    fn from_chromosome(chromosome: Chromosome<W>) -> (r: Self) {
        AnimalIndividual { fitness: 0, chromosome }
    }
}

/// Breeds the brains of the next generation: one generation of the genetic
/// algorithm over the population, each child's genes then rebuilt into a
/// brain for the same eye. The population keeps its size.
pub fn evolve<R: rand::RngCore, W: Copy, S: SelectionMethod, C: CrossoverMethod, M: MutationMethod<
    W,
>>(
    genetic_algorithm: &GeneticAlgorithm<S, C, M>,
    rng: &mut R,
    population: &[AnimalIndividual<W>],
    photoreceptors: usize,
) -> (r: Vec<Brain<W>>)
    requires
        photoreceptors <= usize::MAX / 2,
        total(fitnesses(population@)) <= usize::MAX,
        uniform_length(population@, brain_genes(photoreceptors as nat)),
    ensures
        r@.len() == population@.len(),
        forall|k: int|
            0 <= k < r@.len() ==> {
                &&& (#[trigger] r@[k]).wired_for(photoreceptors as nat)
                &&& r@[k].genes().len() == brain_genes(photoreceptors as nat)
                &&& genetic_algorithm.bred_from(population@, r@[k].genes())
            },
{
    let mut children = genetic_algorithm.iterate(rng, population);
    let mut brains: Vec<Brain<W>> = Vec::new();
    let ghost n = children@.len();
    while children.len() > 0
        invariant
            brains@.len() + children@.len() == n,
            n == population@.len(),
            photoreceptors <= usize::MAX / 2,
            uniform_length(children@, brain_genes(photoreceptors as nat)),
            forall|k: int|
                0 <= k < children@.len() ==> genetic_algorithm.bred_from(
                    population@,
                    (#[trigger] children@[k]).genes_of(),
                ),
            forall|k: int|
                0 <= k < brains@.len() ==> {
                    &&& (#[trigger] brains@[k]).wired_for(photoreceptors as nat)
                    &&& brains@[k].genes().len() == brain_genes(photoreceptors as nat)
                    &&& genetic_algorithm.bred_from(population@, brains@[k].genes())
                },
        decreases children@.len(),
    {
        let ghost before = children@;
        let child = children.remove(0);
        assert(child == before[0]);
        assert forall|k: int| 0 <= k < children@.len() implies (#[trigger] children@[k]).genes_of().len()
            == brain_genes(photoreceptors as nat) by {
            assert(children@[k] == before[k + 1]);
        }
        assert forall|k: int| 0 <= k < children@.len() implies genetic_algorithm.bred_from(
            population@,
            (#[trigger] children@[k]).genes_of(),
        ) by {
            assert(children@[k] == before[k + 1]);
        }
        brains.push(child.into_brain(photoreceptors));
    }
    brains
}

} // verus!
