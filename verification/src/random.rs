//! The two places where chance enters the game. Nothing here is proved:
//! each contract states what the `rand` crate documents of the call.

use vstd::prelude::*;
use rand::seq::SliceRandom;
use rand::Rng;

verus! {

/// Draws an index below `n` from the thread-local generator, by
/// `rand::Rng::random_range` on `0..n`.
///
/// The call panics on an empty range, so `n` must be positive. What comes
/// back lies in the range; which index it is depends on chance, and nothing
/// more is claimed.
#[verifier::external_body]
pub(crate) fn random_index(n: usize) -> (k: usize)
    requires
        n > 0,
    ensures
        k < n,
{
    rand::rng().random_range(0..n)
}

/// Rearranges `items` in place by `rand::seq::SliceRandom::shuffle` with the
/// thread-local generator.
///
/// The shuffle only swaps entries of the slice, so the same items are there
/// afterwards, each as often as before; their order depends on chance.
#[verifier::external_body]
pub(crate) fn shuffle<T>(items: &mut Vec<T>)
    ensures
        final(items)@.to_multiset() == old(items)@.to_multiset(),
{
    items.shuffle(&mut rand::rng());
}

} // verus!
