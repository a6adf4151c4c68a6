use vstd::prelude::*;

use crate::chromosome::{fitnesses, total, Individual};
use crate::random::{below, choose_weighted};

verus! {

/// A way of picking a parent out of a population.
pub trait SelectionMethod {
    /// Whether the method may pick the member at `index` of a population
    /// whose fitnesses are `fitness`.
    spec fn admits(&self, fitness: Seq<usize>, index: int) -> bool;

    fn select<'a, R: rand::RngCore, G, I: Individual<G>>(
        &self,
        rng: &mut R,
        population: &'a [I],
    ) -> (r: &'a I)
        requires
            population@.len() > 0,
            total(fitnesses(population@)) <= usize::MAX,
        ensures
            exists|i: int|
                0 <= i < population@.len() && *r == population@[i] && self.admits(
                    fitnesses(population@),
                    i,
                ),
    ;
}

/// Fitness-proportionate selection: each member is picked with probability
/// proportional to its fitness; when every fitness is zero, uniformly.
pub struct RoulleteWheelSelection;

impl RoulleteWheelSelection {
    pub fn new() -> (r: Self) {
        RoulleteWheelSelection
    }
}

/// Whether the roulette wheel may land on `index`: a member with positive
/// fitness, or any member when no fitness is positive.
pub open spec fn roulette_admits(fitness: Seq<usize>, index: int) -> bool {
    &&& 0 <= index < fitness.len()
    &&& (fitness[index] > 0 || forall|j: int| 0 <= j < fitness.len() ==> fitness[j] == 0)
}

impl SelectionMethod for RoulleteWheelSelection {
    open spec fn admits(&self, fitness: Seq<usize>, index: int) -> bool {
        roulette_admits(fitness, index)
    }

    fn select<'a, R: rand::RngCore, G, I: Individual<G>>(
        &self,
        rng: &mut R,
        population: &'a [I],
    ) -> (r: &'a I) {
        let mut weights: Vec<usize> = Vec::new();
        let mut k: usize = 0;
        while k < population.len()
            invariant
                k <= population@.len(),
                weights@ == fitnesses(population@).subrange(0, k as int),
            decreases population@.len() - k,
        {
            weights.push(population[k].fitness());
            k = k + 1;
        }
        assert(weights@ == fitnesses(population@));
        let index = match choose_weighted(rng, &weights) {
            Some(i) => i,
            None => below(rng, population.len()),
        };
        &population[index]
    }
}

} // verus!
