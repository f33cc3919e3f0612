//! Trusted bindings for the random pieces of the system: the rotation
//! shuffle and freshly minted identifiers.

use rand::seq::SliceRandom;
use vstd::prelude::*;

verus! {

/// Relies on rand's `SliceRandom::shuffle` with `thread_rng`: it permutes
/// the vector in place. Which permutation comes out depends on the
/// generator, so only what holds of every outcome is stated: the elements
/// and their multiplicities are unchanged.
#[verifier::external_body]
pub(crate) fn shuffle_slots(v: &mut Vec<usize>)
    ensures
        final(v)@.len() == old(v)@.len(),
        final(v)@.to_multiset() == old(v)@.to_multiset(),
{
    v.shuffle(&mut rand::thread_rng());
}

/// Relies on `uuid::Uuid::new_v4` and its `Display` form: a freshly drawn
/// random UUID, hyphenated, 36 characters long. Nothing else can be said of
/// a random identifier.
#[verifier::external_body]
pub fn unique_id() -> (r: String)
    ensures
        r@.len() == 36,
{
    uuid::Uuid::new_v4().to_string()
}

} // verus!
