use rand::seq::SliceRandom;
use rand::Rng;
use vstd::prelude::*;

use crate::chromosome::total;

verus! {

/// Relies on rand's `Rng::gen_ratio(1, 2)`: a fair coin. It draws the same
/// values as `gen_bool(0.5)`; nothing is known of which side comes up.
#[verifier::external_body]
pub(crate) fn coin<R: rand::RngCore>(rng: &mut R) -> (r: bool) {
    rng.gen_ratio(1, 2)
}

/// Relies on rand's `Rng::gen_range` over a half-open range of integers: the
/// value lies in the range (it panics on an empty one).
#[verifier::external_body]
pub(crate) fn below<R: rand::RngCore>(rng: &mut R, n: usize) -> (r: usize)
    requires
        n > 0,
    ensures
        r < n,
{
    rng.gen_range(0..n)
}

/// Relies on rand's `SliceRandom::choose_weighted`, here over the indices of
/// `weights`: it fails exactly when the weights are all zero (or there are
/// none), and otherwise picks an index whose weight is positive. It adds the
/// weights up in their own type, so their sum must fit.
#[verifier::external_body]
pub(crate) fn choose_weighted<R: rand::RngCore>(rng: &mut R, weights: &Vec<usize>) -> (r: Option<
    usize,
>)
    requires
        total(weights@) <= usize::MAX,
    ensures
        match r {
            Some(i) => i < weights@.len() && weights@[i as int] > 0,
            None => forall|i: int| 0 <= i < weights@.len() ==> weights@[i] == 0,
        },
{
    let indices: Vec<usize> = (0..weights.len()).collect();
    indices.choose_weighted(rng, |i| weights[*i]).ok().copied()
}

} // verus!
