use vstd::prelude::*;

use crate::chromosome::{fitnesses, total, uniform_length, Chromosome, Individual};
use crate::crossover::{mixes, CrossoverMethod};
use crate::mutation::MutationMethod;
use crate::selection::SelectionMethod;

verus! {

/// Generational replacement built from a selection, a crossover and a
/// mutation method.
pub struct GeneticAlgorithm<S, C, M> {
    selection_method: S,
    crossover_method: C,
    mutation_method: M,
}

impl<S: SelectionMethod, C: CrossoverMethod, M> GeneticAlgorithm<S, C, M> {
    pub fn new(selection_method: S, crossover_method: C, mutation_method: M) -> (r: Self)
        ensures
            r.selection_method() == selection_method,
            r.crossover_method() == crossover_method,
            r.mutation_method() == mutation_method,
    {
        GeneticAlgorithm { selection_method, crossover_method, mutation_method }
    }

    pub closed spec fn selection_method(&self) -> S {
        self.selection_method
    }

    pub closed spec fn crossover_method(&self) -> C {
        self.crossover_method
    }

    pub closed spec fn mutation_method(&self) -> M {
        self.mutation_method
    }

    /// Whether `genes` can be a child of `population`: the mutation of a mix
    /// of two members that the selection method may pick.
    pub open spec fn bred_from<G, I: Individual<G>>(&self, population: Seq<I>, genes: Seq<G>) -> bool
        where
            M: MutationMethod<G>,
    {
        exists|a: int, b: int, c: Seq<G>|
            {
                &&& 0 <= a < population.len()
                &&& 0 <= b < population.len()
                &&& self.selection_method().admits(fitnesses(population), a)
                &&& self.selection_method().admits(fitnesses(population), b)
                &&& mixes(population[a].genes_of(), population[b].genes_of(), c)
                &&& self.mutation_method().mutates(c, genes)
            }
    }

    /// Selects two parents (independently, from the same population) and
    /// crosses them; the child is not mutated yet.
    pub fn offspring<R: rand::RngCore, G: Copy, I: Individual<G>>(
        &self,
        rng: &mut R,
        population: &[I],
    ) -> (r: Chromosome<G>)
        requires
            population@.len() > 0,
            total(fitnesses(population@)) <= usize::MAX,
            uniform_length(population@, population@[0].genes_of().len()),
        ensures
            exists|a: int, b: int|
                {
                    &&& 0 <= a < population@.len()
                    &&& 0 <= b < population@.len()
                    &&& self.selection_method().admits(fitnesses(population@), a)
                    &&& self.selection_method().admits(fitnesses(population@), b)
                    &&& mixes(population@[a].genes_of(), population@[b].genes_of(), r@)
                },
    {
        let parent_a = self.selection_method.select(rng, population);
        let parent_b = self.selection_method.select(rng, population);
        self.crossover_method.crossover(rng, parent_a.chromosome(), parent_b.chromosome())
    }

    /// One generation: as many children as there are members, each from two
    /// selected parents, crossed and then mutated.
    pub fn iterate<R: rand::RngCore, G: Copy, I: Individual<G>>(
        &self,
        rng: &mut R,
        population: &[I],
    ) -> (r: Vec<I>)
        where
            M: MutationMethod<G>,
        requires
            total(fitnesses(population@)) <= usize::MAX,
            population@.len() > 0 ==> uniform_length(population@, population@[0].genes_of().len()),
        ensures
            r@.len() == population@.len(),
            uniform_length(r@, population@[0].genes_of().len()),
            forall|k: int|
                0 <= k < r@.len() ==> self.bred_from(population@, (#[trigger] r@[k]).genes_of()),
    {
        let ghost len = population@[0].genes_of().len();
        let mut next: Vec<I> = Vec::new();
        let mut k: usize = 0;
        while k < population.len()
            invariant
                k <= population@.len(),
                next@.len() == k,
                total(fitnesses(population@)) <= usize::MAX,
                population@.len() > 0 ==> uniform_length(population@, len),
                len == population@[0].genes_of().len(),
                uniform_length(next@, len),
                forall|j: int|
                    0 <= j < next@.len() ==> self.bred_from(population@, (#[trigger] next@[j]).genes_of()),
            decreases population@.len() - k,
        {
            let mut child = self.offspring(rng, population);
            let ghost crossed = child@;
            self.mutation_method.mutate(rng, &mut child);
            let individual = I::from_chromosome(child);
            assert(self.bred_from(population@, individual.genes_of())) by {
                let (a, b) = choose|a: int, b: int|
                    {
                        &&& 0 <= a < population@.len()
                        &&& 0 <= b < population@.len()
                        &&& self.selection_method().admits(fitnesses(population@), a)
                        &&& self.selection_method().admits(fitnesses(population@), b)
                        &&& mixes(population@[a].genes_of(), population@[b].genes_of(), crossed)
                    };
                assert(self.mutation_method().mutates(crossed, individual.genes_of()));
            }
            next.push(individual);
            k = k + 1;
        }
        next
    }
}

} // verus!
