use vstd::prelude::*;
use vstd::std_specs::iter::IteratorSpec;

verus! {

/// A flat, ordered sequence of genes.
///
/// The genetic operators never look inside a gene: they only move genes
/// between positions and between chromosomes, so the gene type is generic.
pub struct Chromosome<G> {
    pub genes: Vec<G>,
}

impl<G> View for Chromosome<G> {
    type V = Seq<G>;

    open spec fn view(&self) -> Seq<G> {
        self.genes@
    }
}

impl<G> Chromosome<G> {
    /// Wraps a sequence of genes, keeping their order.
    pub fn new(genes: Vec<G>) -> (r: Self)
        ensures
            r@ == genes@,
    {
        Chromosome { genes }
    }

    pub fn len(&self) -> (r: usize)
        ensures
            r == self@.len(),
    {
        self.genes.len()
    }

    /// The genes in order.
    pub fn iter(&self) -> (r: std::slice::Iter<'_, G>)
        ensures
            r.remaining() == self@.map_values(|g: G| &g),
    {
        self.genes.as_slice().iter()
    }

    /// The gene at `index`.
    pub fn index(&self, index: usize) -> (r: &G)
        requires
            index < self@.len(),
        ensures
            *r == self@[index as int],
    {
        &self.genes[index]
    }

    /// Takes the genes back out, in order.
    pub fn into_genes(self) -> (r: Vec<G>)
        ensures
            r@ == self@,
    {
        self.genes
    }
}

} // verus!

verus! {

/// Something the genetic algorithm can breed: it has a fitness, shows its
/// chromosome, and can be rebuilt from one.
pub trait Individual<G>: Sized {
    /// The fitness, as the individual reports it.
    spec fn fitness_of(&self) -> usize;

    /// The genes of the individual's chromosome.
    spec fn genes_of(&self) -> Seq<G>;

    fn fitness(&self) -> (r: usize)
        ensures
            r == self.fitness_of(),
    ;

    fn chromosome(&self) -> (r: &Chromosome<G>)
        ensures
            r@ == self.genes_of(),
    ;

    fn from_chromosome(chromosome: Chromosome<G>) -> (r: Self)
        ensures
            r.genes_of() == chromosome@,
    ;
}

/// The fitness of each member of a population, in order.
pub open spec fn fitnesses<G, I: Individual<G>>(population: Seq<I>) -> Seq<usize> {
    population.map_values(|i: I| i.fitness_of())
}

/// The sum of a sequence of natural numbers.
pub open spec fn total(s: Seq<usize>) -> nat
    decreases s.len(),
{
    if s.len() == 0 {
        0
    } else {
        total(s.drop_last()) + s.last() as nat
    }
}

/// Whether every member of the population carries a chromosome of `len` genes.
pub open spec fn uniform_length<G, I: Individual<G>>(population: Seq<I>, len: nat) -> bool {
    forall|i: int| 0 <= i < population.len() ==> (#[trigger] population[i]).genes_of().len() == len
}

} // verus!
