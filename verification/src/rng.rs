//! The trusted boundary to the `rand` crate. Nothing can be promised about
//! which values come out, so the contracts state only what holds of every
//! outcome: a drawn index is in range, and a shuffle keeps exactly the same
//! characters.

use vstd::prelude::*;

use rand::seq::SliceRandom;
use rand::Rng;

verus! {

#[verifier::external_type_specification]
#[verifier::external_body]
pub struct ExThreadRng(rand::rngs::ThreadRng);

/// Relies on rand::thread_rng: a handle to this thread's generator.
#[verifier::external_body]
pub(crate) fn fresh_rng() -> rand::rngs::ThreadRng {
    rand::thread_rng()
}

/// Relies on rand::Rng::gen_range: a value drawn from the given range, here
/// an index below `n`. The call panics on an empty range, so `n` must be
/// positive.
#[verifier::external_body]
pub(crate) fn random_index(rng: &mut rand::rngs::ThreadRng, n: usize) -> (r: usize)
    requires
        n > 0,
    ensures
        r < n,
{
    rng.gen_range(0..n)
}

/// Relies on rand::seq::SliceRandom::shuffle: permutes the slice in place by
/// swaps, so the characters themselves are unchanged.
#[verifier::external_body]
pub(crate) fn shuffle_chars(rng: &mut rand::rngs::ThreadRng, v: &mut Vec<char>)
    ensures
        final(v)@.to_multiset() == old(v)@.to_multiset(),
{
    v.as_mut_slice().shuffle(rng)
}

} // verus!
