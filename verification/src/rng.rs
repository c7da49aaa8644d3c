//! The random choices of the game, made by the `rand` crate.
use vstd::prelude::*;

use rand::rngs::ThreadRng;
use rand::seq::SliceRandom;
use rand::Rng;

use crate::roles::LupusRole;

verus! {

/// `rand::rngs::ThreadRng`, the thread-local random generator.
#[verifier::external_type_specification]
#[verifier::external_body]
pub struct ExThreadRng(ThreadRng);

/// Calls `rand::thread_rng`, which hands out the thread-local generator.
/// Nothing is promised of it.
#[verifier::external_body]
pub(crate) fn thread_rng() -> ThreadRng {
    rand::thread_rng()
}

/// Calls `SliceRandom::shuffle` on the roles: it swaps elements of the
/// slice in place, so the roles end up as a permutation of what they were
/// (the same multiset, the same length).  Which permutation is left to
/// chance and is not stated.
#[verifier::external_body]
pub(crate) fn shuffle_roles(roles: &mut Vec<LupusRole>, rng: &mut ThreadRng)
    ensures
        final(roles)@.len() == old(roles)@.len(),
        final(roles)@.to_multiset() == old(roles)@.to_multiset(),
{
    roles.shuffle(rng);
}

/// Calls `Rng::gen_range` with the inclusive range `low..=high`, which
/// panics on an empty range and otherwise returns a value of the range.
/// Which value is left to chance and is not stated.
#[verifier::external_body]
pub(crate) fn gen_range_inclusive(rng: &mut ThreadRng, low: usize, high: usize) -> (r: usize)
    requires
        low <= high,
    ensures
        low <= r <= high,
{
    rng.gen_range(low..=high)
}

} // verus!
