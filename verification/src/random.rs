//! The random number generator and the three ways it is used.

use crate::field::all_canonical;
use crate::field::lemma_same_values_canonical;
use crate::field::Scalar;
use rand::seq::SliceRandom;
use rand::Rng;
use rand::SeedableRng;
use rand_chacha::ChaCha20Rng;
use vstd::prelude::*;
use vstd::seq_lib::*;

verus! {

/// Trusted declaration of `rand_chacha::ChaCha20Rng` as an opaque type.
#[verifier::external_type_specification]
#[verifier::external_body]
pub struct ExChaCha20Rng(ChaCha20Rng);

/// Trusted: `rand::SeedableRng::from_entropy` for `ChaCha20Rng`. The seed comes
/// from the operating system, so nothing is claimed of the generator returned.
/// The call aborts the process if the system cannot supply entropy.
#[verifier::external_body]
pub(crate) fn entropy_rng() -> (rng: ChaCha20Rng) {
    ChaCha20Rng::from_entropy()
}

/// Trusted: `rand::Rng::gen_range` on the half-open range `low..high`. The
/// call panics on an empty range, which the precondition excludes. Which value
/// comes back depends on the generator's state; the contract claims only that
/// it lies in the range.
#[verifier::external_body]
pub(crate) fn draw_in_range(rng: &mut ChaCha20Rng, low: usize, high: usize) -> (drawn: usize)
    requires
        low < high,
    ensures
        low <= drawn < high,
{
    rng.gen_range(low..high)
}

/// Trusted: `rand::seq::SliceRandom::shuffle`. The call only swaps elements of
/// the slice, so the contract claims that the values after the call are the
/// values before it, each as often as before; nothing is claimed of their order.
#[verifier::external_body]
pub(crate) fn shuffle_in_place(values: &mut Vec<Scalar>, rng: &mut ChaCha20Rng)
    ensures
        final(values)@.to_multiset() == old(values)@.to_multiset(),
{
    values.shuffle(rng)
}

/// Permutes `values` at random: afterwards they hold what they held before,
/// each value as often, in an order that the generator decides.
pub fn shuffle_scalars(values: &mut Vec<Scalar>, rng: &mut ChaCha20Rng)
    ensures
        final(values)@.to_multiset() == old(values)@.to_multiset(),
        final(values)@.len() == old(values)@.len(),
        all_canonical(old(values)@) ==> all_canonical(final(values)@),
{
    shuffle_in_place(values, rng);
    proof {
        to_multiset_len(old(values)@);
        to_multiset_len(values@);
        if all_canonical(old(values)@) {
            lemma_same_values_canonical(old(values)@, values@);
        }
    }
}

} // verus!
