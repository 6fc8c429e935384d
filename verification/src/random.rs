//! The pseudo-random generator that orders a shuffled queue.
use rand::rngs::StdRng;
use rand::seq::SliceRandom;
use rand::SeedableRng;
use vstd::prelude::*;

verus! {

/// `rand::rngs::StdRng`, carried through as an opaque value.
#[verifier::external_type_specification]
#[verifier::external_body]
pub struct ExStdRng(StdRng);

/// Calls `StdRng::seed_from_u64`. Nothing is claimed of the generator it
/// returns: its state is opaque here.
#[verifier::external_body]
pub(crate) fn seeded_rng(seed: u64) -> StdRng {
    StdRng::seed_from_u64(seed)
}

/// Calls `SliceRandom::shuffle` on `items` with `rng`. The claim is that the
/// result holds the same elements as before, each as often: the shuffle
/// only swaps entries. Which order comes out is not claimed.
#[verifier::external_body]
pub(crate) fn shuffle_in_place(items: &mut Vec<usize>, rng: &mut StdRng)
    ensures
        final(items)@.to_multiset() == old(items)@.to_multiset(),
{
    items.shuffle(rng);
}

} // verus!
