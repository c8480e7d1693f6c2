//! The source of random order: the thread-local generator of the `rand` crate
//! and its in-place shuffle. Nothing here is proved; each item says what it
//! takes on trust.

use vstd::prelude::*;

verus! {

/// `rand::rngs::ThreadRng`, the handle to the calling thread's generator. It
/// is carried through and never looked into.
#[verifier::external_type_specification]
#[verifier::external_body]
pub struct ExThreadRng(rand::rngs::ThreadRng);

/// `rand::thread_rng` hands out the calling thread's generator, seeded by the
/// system. Nothing is claimed of the handle.
pub assume_specification[ rand::thread_rng ]() -> (rng: rand::rngs::ThreadRng);

/// `rand::seq::SliceRandom::shuffle` on the items of a vector. The call walks
/// the slice from its end and swaps each item with one at a random position
/// at or before it, so all that is claimed is what every run of swaps
/// keeps: the same items, each as often as before.
#[verifier::external_body]
pub(crate) fn shuffle_items<T>(items: &mut Vec<T>, rng: &mut rand::rngs::ThreadRng)
    ensures
        final(items)@.to_multiset() == old(items)@.to_multiset(),
{
    rand::seq::SliceRandom::shuffle(items.as_mut_slice(), rng);
}

} // verus!
