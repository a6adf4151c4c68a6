use vstd::prelude::*;

use crate::chromosome::Chromosome;

verus! {

/// A way of perturbing a child chromosome after crossover.
///
/// Perturbing a gene needs arithmetic on it, so a method is written for a
/// particular gene type. Whatever it does to the genes, it keeps their number.
pub trait MutationMethod<G> {
    /// Whether the method may turn the genes `before` into `after`. A method
    /// that says nothing more is only known to keep the number of genes.
    open spec fn mutates(&self, before: Seq<G>, after: Seq<G>) -> bool {
        before.len() == after.len()
    }

    fn mutate<R: rand::RngCore>(&self, rng: &mut R, child: &mut Chromosome<G>)
        ensures
            final(child)@.len() == old(child)@.len(),
            self.mutates(old(child)@, final(child)@),
    ;
}

} // verus!
