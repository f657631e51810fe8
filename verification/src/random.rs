//! The random draws of the library. Everything here is believed, not proved:
//! each function hands one request to the `rand` crate's thread-local
//! generator, and its contract states only what holds of every outcome.

use rand::seq::SliceRandom;
use rand::Rng;
use vstd::prelude::*;

verus! {

/// Draws an integer uniformly from `lo..=hi` with `rand::Rng::random_range`
/// on the generator that `rand::rng` hands out.
///
/// The contract claims that the draw lies in the requested interval, and
/// leaves out the empty interval, on which `random_range` panics.
#[verifier::external_body]
pub(crate) fn random_in_range(lo: i64, hi: i64) -> (r: i64)
    requires
        lo <= hi,
    ensures
        lo <= r <= hi,
{
    rand::rng().random_range(lo..=hi)
}

/// Draws an index uniformly from `lo..=hi` with `rand::Rng::random_range` on
/// the generator that `rand::rng` hands out.
///
/// The contract claims that the draw lies in the requested interval, and
/// leaves out the empty interval, on which `random_range` panics.
#[verifier::external_body]
pub(crate) fn random_index(lo: usize, hi: usize) -> (r: usize)
    requires
        lo <= hi,
    ensures
        lo <= r <= hi,
{
    rand::rng().random_range(lo..=hi)
}

/// Shuffles `items` in place with `rand::seq::SliceRandom::shuffle` on the
/// generator that `rand::rng` hands out.
///
/// The contract claims that the shuffle only reorders: the same values occur
/// the same number of times before and after.
#[verifier::external_body]
pub(crate) fn shuffle(items: &mut Vec<usize>)
    ensures
        final(items)@.to_multiset() == old(items)@.to_multiset(),
{
    items.shuffle(&mut rand::rng());
}

} // verus!
