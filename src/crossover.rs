use vstd::prelude::*;

use crate::chromosome::Chromosome;
use crate::random::coin;

verus! {

/// Whether `child` is made of the genes of `a` and `b` position by position:
/// same length, and each gene is the one of `a` or the one of `b` there.
pub open spec fn mixes<G>(a: Seq<G>, b: Seq<G>, child: Seq<G>) -> bool {
    &&& child.len() == a.len()
    &&& forall|i: int| 0 <= i < child.len() ==> #[trigger] child[i] == a[i] || child[i] == b[i]
}

/// At how many positions `x` and `y` hold the same gene.
pub open spec fn agreement<G>(x: Seq<G>, y: Seq<G>) -> nat
    decreases x.len(),
{
    if x.len() == 0 {
        0
    } else {
        agreement(x.drop_last(), y) + if x.last() == y[x.len() - 1] {
            1nat
        } else {
            0nat
        }
    }
}

/// How many of the tosses came up `true`.
pub open spec fn heads(picks: Seq<bool>) -> nat
    decreases picks.len(),
{
    if picks.len() == 0 {
        0
    } else {
        heads(picks.drop_last()) + if picks.last() {
            1nat
        } else {
            0nat
        }
    }
}

/// Whether two parents differ at every position.
pub open spec fn disjoint<G>(a: Seq<G>, b: Seq<G>) -> bool {
    &&& a.len() == b.len()
    &&& forall|i: int| 0 <= i < a.len() ==> #[trigger] a[i] != b[i]
}

/// A child of two parents that differ at every position takes each gene
/// from exactly one of them: the genes it shares with the first parent and
/// those it shares with the second add up to its length.
pub proof fn lemma_mix_splits<G>(a: Seq<G>, b: Seq<G>, child: Seq<G>)
    requires
        disjoint(a, b),
        mixes(a, b, child),
    ensures
        agreement(child, a) + agreement(child, b) == child.len(),
    decreases child.len(),
{
    if child.len() > 0 {
        let n = child.len() - 1;
        let (ai, bi, ci) = (a.subrange(0, n), b.subrange(0, n), child.drop_last());
        assert forall|i: int| 0 <= i < ci.len() implies #[trigger] ci[i] == ai[i] || ci[i] == bi[i] by {
            assert(child[i] == a[i] || child[i] == b[i]);
        }
        assert forall|i: int| 0 <= i < ai.len() implies #[trigger] ai[i] != bi[i] by {
            assert(a[i] != b[i]);
        }
        lemma_mix_splits(ai, bi, ci);
        lemma_agreement_prefix(ci, a, ai);
        lemma_agreement_prefix(ci, b, bi);
        assert(child[n] == a[n] || child[n] == b[n]);
        assert(a[n] != b[n]);
    }
}

/// Agreement only looks at the positions of `x`.
proof fn lemma_agreement_prefix<G>(x: Seq<G>, y: Seq<G>, z: Seq<G>)
    requires
        x.len() <= y.len(),
        x.len() <= z.len(),
        forall|i: int| 0 <= i < x.len() ==> #[trigger] y[i] == z[i],
    ensures
        agreement(x, y) == agreement(x, z),
    decreases x.len(),
{
    if x.len() > 0 {
        lemma_agreement_prefix(x.drop_last(), y, z);
        assert(y[x.len() - 1] == z[x.len() - 1]);
    }
}

/// With parents that differ at every position, the child of uniform
/// crossover shares with the first parent exactly as many genes as there
/// were `true` tosses, and with the second parent the rest: the split is
/// fixed by the tosses alone.
pub proof fn lemma_uniform_split<G>(picks: Seq<bool>, a: Seq<G>, b: Seq<G>)
    requires
        disjoint(a, b),
        picks.len() == a.len(),
    ensures
        agreement(uniform_child(picks, a, b), a) == heads(picks),
        agreement(uniform_child(picks, a, b), b) == a.len() - heads(picks),
    decreases picks.len(),
{
    let child = uniform_child(picks, a, b);
    if picks.len() > 0 {
        let n = picks.len() - 1;
        let (pi, ai, bi) = (picks.drop_last(), a.subrange(0, n), b.subrange(0, n));
        assert forall|i: int| 0 <= i < ai.len() implies #[trigger] ai[i] != bi[i] by {
            assert(a[i] != b[i]);
        }
        lemma_uniform_split(pi, ai, bi);
        assert(child.drop_last() =~= uniform_child(pi, ai, bi));
        lemma_agreement_prefix(child.drop_last(), a, ai);
        lemma_agreement_prefix(child.drop_last(), b, bi);
        assert(a[n] != b[n]);
        lemma_heads_bound(pi);
    }
}

proof fn lemma_heads_bound(picks: Seq<bool>)
    ensures
        heads(picks) <= picks.len(),
    decreases picks.len(),
{
    if picks.len() > 0 {
        lemma_heads_bound(picks.drop_last());
    }
}

/// A way of combining two parent chromosomes into a child.
///
/// The genes are opaque to it, so a child can only take, at each position,
/// the gene one of its parents has there.
pub trait CrossoverMethod {
    fn crossover<R: rand::RngCore, G: Copy>(
        &self,
        rng: &mut R,
        parent_a: &Chromosome<G>,
        parent_b: &Chromosome<G>,
    ) -> (r: Chromosome<G>)
        requires
            parent_a@.len() == parent_b@.len(),
        ensures
            mixes(parent_a@, parent_b@, r@),
    ;
}

/// Uniform crossover: each gene comes from either parent with equal chance,
/// decided position by position.
pub struct UniformCrossover;

/// The child that uniform crossover makes from the coin tosses `picks`:
/// where a toss is `true` the gene of `a`, else the gene of `b`.
pub open spec fn uniform_child<G>(picks: Seq<bool>, a: Seq<G>, b: Seq<G>) -> Seq<G> {
    Seq::new(a.len(), |i: int| if picks[i] { a[i] } else { b[i] })
}

impl UniformCrossover {
    pub fn new() -> (r: Self) {
        UniformCrossover
    }

    /// Uniform crossover once the tosses are known: one toss per position.
    pub fn crossover_with<G: Copy>(
        &self,
        picks: &Vec<bool>,
        parent_a: &Chromosome<G>,
        parent_b: &Chromosome<G>,
    ) -> (r: Chromosome<G>)
        requires
            parent_a@.len() == parent_b@.len(),
            picks@.len() == parent_a@.len(),
        ensures
            r@ == uniform_child(picks@, parent_a@, parent_b@),
    {
        let mut genes: Vec<G> = Vec::new();
        let mut k: usize = 0;
        while k < parent_a.len()
            invariant
                k <= parent_a@.len(),
                parent_a@.len() == parent_b@.len(),
                picks@.len() == parent_a@.len(),
                genes@ == uniform_child(picks@, parent_a@, parent_b@).subrange(0, k as int),
            decreases parent_a@.len() - k,
        {
            let gene = if picks[k] {
                *parent_a.index(k)
            } else {
                *parent_b.index(k)
            };
            genes.push(gene);
            k = k + 1;
        }
        assert(genes@ == uniform_child(picks@, parent_a@, parent_b@));
        Chromosome::new(genes)
    }
}

impl CrossoverMethod for UniformCrossover {
    /// Tosses one coin per position, in order, then mixes the parents
    /// accordingly.
    fn crossover<R: rand::RngCore, G: Copy>(
        &self,
        rng: &mut R,
        parent_a: &Chromosome<G>,
        parent_b: &Chromosome<G>,
    ) -> (r: Chromosome<G>) {
        let mut picks: Vec<bool> = Vec::new();
        let mut k: usize = 0;
        while k < parent_a.len()
            invariant
                k <= parent_a@.len(),
                picks@.len() == k,
            decreases parent_a@.len() - k,
        {
            picks.push(coin(rng));
            k = k + 1;
        }
        self.crossover_with(&picks, parent_a, parent_b)
    }
}

} // verus!
