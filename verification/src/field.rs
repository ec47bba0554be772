//! Scalars of the BLS12-377 scalar field, held as canonical integers.

use ark_bls12_377::Fr;
use ark_ff::PrimeField;
use ark_std::UniformRand;
use ark_std::{One, Zero};
use rand_chacha::ChaCha20Rng;
use vstd::prelude::*;
use vstd::seq_lib::*;

verus! {

/// An element of the scalar field, as the four little-endian 64-bit limbs of
/// the integer in `[0, r)` that represents it. This is the fixed-width form a
/// multi-scalar-multiplication engine consumes.
#[derive(Clone, Copy, Debug, PartialEq, Eq, Hash)]
pub struct Scalar {
    pub limbs: [u64; 4],
}

/// The order `r` of the scalar field.
pub open spec fn scalar_modulus() -> nat {
    0x12ab655e9a2ca55660b44d1e5c37b00159aa76fed00000010a11800000000001nat
}

impl Scalar {
    /// The integer that the limbs spell.
    pub open spec fn value(self) -> nat {
        (self.limbs@[0] as nat) + (self.limbs@[1] as nat) * 0x1_0000_0000_0000_0000nat
            + (self.limbs@[2] as nat) * 0x1_0000_0000_0000_0000_0000_0000_0000_0000nat
            + (self.limbs@[3] as nat)
            * 0x1_0000_0000_0000_0000_0000_0000_0000_0000_0000_0000_0000_0000nat
    }

    /// The limbs spell an integer below the field order.
    pub open spec fn is_canonical(self) -> bool {
        self.value() < scalar_modulus()
    }

    /// The additive identity.
    pub open spec fn zero() -> Scalar {
        Scalar { limbs: [0u64, 0u64, 0u64, 0u64] }
    }

    /// The multiplicative identity.
    pub open spec fn one() -> Scalar {
        Scalar { limbs: [1u64, 0u64, 0u64, 0u64] }
    }
}

/// Every element of the sequence is a reduced field element.
pub open spec fn all_canonical(values: Seq<Scalar>) -> bool {
    forall|i: int| 0 <= i < values.len() ==> (#[trigger] values[i]).is_canonical()
}

/// Trusted: `ark_std::Zero::zero` for `ark_bls12_377::Fr`, converted by
/// `ark_ff::PrimeField::into_repr`. The contract claims that the field's
/// additive identity is represented by the integer 0.
#[verifier::external_body]
pub(crate) fn field_zero() -> (s: Scalar)
    ensures
        s == Scalar::zero(),
{
    Scalar { limbs: Fr::zero().into_repr().0 }
}

/// Trusted: `ark_std::One::one` for `ark_bls12_377::Fr`, converted by
/// `ark_ff::PrimeField::into_repr`. The contract claims that the field's
/// multiplicative identity is represented by the integer 1.
#[verifier::external_body]
pub(crate) fn field_one() -> (s: Scalar)
    ensures
        s == Scalar::one(),
{
    Scalar { limbs: Fr::one().into_repr().0 }
}

/// Trusted: `ark_std::UniformRand::rand` for `ark_bls12_377::Fr`, converted
/// by `ark_ff::PrimeField::into_repr`. Which element comes back depends
/// on the generator's state; the contract claims only that it is a reduced
/// field element, so its limbs spell an integer below the field order.
#[verifier::external_body]
pub(crate) fn random_scalar(rng: &mut ChaCha20Rng) -> (s: Scalar)
    ensures
        s.is_canonical(),
{
    Scalar { limbs: Fr::rand(rng).into_repr().0 }
}

/// The two identities are canonical and distinct.
pub proof fn lemma_identities()
    ensures
        Scalar::zero().value() == 0,
        Scalar::one().value() == 1,
        Scalar::zero().is_canonical(),
        Scalar::one().is_canonical(),
        Scalar::zero() != Scalar::one(),
{
    assert(Scalar::zero().limbs@[0] == 0);
    assert(Scalar::one().limbs@[0] == 1);
}

/// Two sequences with the same values, each as often, are both made of
/// reduced field elements if one of them is.
pub proof fn lemma_same_values_canonical(raw: Seq<Scalar>, out: Seq<Scalar>)
    requires
        all_canonical(raw),
        out.to_multiset() == raw.to_multiset(),
    ensures
        all_canonical(out),
        out.len() == raw.len(),
{
    broadcast use group_to_multiset_ensures;

    to_multiset_len(out);
    to_multiset_len(raw);
    assert forall|i: int| 0 <= i < out.len() implies (#[trigger] out[i]).is_canonical() by {
        assert(out.contains(out[i]));
        assert(raw.to_multiset().count(out[i]) > 0);
        assert(raw.contains(out[i]));
        let j = choose|j: int| 0 <= j < raw.len() && raw[j] == out[i];
        assert(raw[j].is_canonical());
    }
}

/// Appends `count` freshly drawn scalars to `out`.
pub fn append_uniform(out: &mut Vec<Scalar>, count: usize, rng: &mut ChaCha20Rng)
    ensures
        final(out)@.len() == old(out)@.len() + count,
        old(out)@.is_prefix_of(final(out)@),
        all_canonical(final(out)@.subrange(old(out)@.len() as int, final(out)@.len() as int)),
        all_canonical(old(out)@) ==> all_canonical(final(out)@),
{
    let mut drawn: usize = 0;
    while drawn < count
        invariant
            drawn <= count,
            out@.len() == old(out)@.len() + drawn,
            old(out)@.is_prefix_of(out@),
            all_canonical(out@.subrange(old(out)@.len() as int, out@.len() as int)),
            all_canonical(old(out)@) ==> all_canonical(out@),
        decreases count - drawn,
    {
        let ghost before = out@;
        let value = random_scalar(rng);
        out.push(value);
        drawn += 1;
        proof {
            let start = old(out)@.len() as int;
            assert(old(out)@ =~= out@.subrange(0, start)) by {
                assert(old(out)@ =~= before.subrange(0, start));
            }
            assert forall|i: int| 0 <= i < out@.len() - start implies (#[trigger] out@.subrange(
                start,
                out@.len() as int,
            )[i]).is_canonical() by {
                if i < before.len() - start {
                    assert(before.subrange(start, before.len() as int)[i] == out@[start + i]);
                }
            }
            if all_canonical(old(out)@) {
                assert forall|i: int| 0 <= i < out@.len() implies (#[trigger] out@[i]).is_canonical() by {
                    if i < before.len() {
                        assert(before[i] == out@[i]);
                    }
                }
            }
        }
    }
    assert(old(out)@ =~= out@.subrange(0, old(out)@.len() as int));
}

/// Draws `count` independent uniform scalars.
pub fn generate_uniform_scalars(count: usize, rng: &mut ChaCha20Rng) -> (scalars: Vec<Scalar>)
    ensures
        scalars@.len() == count,
        all_canonical(scalars@),
{
    let mut scalars: Vec<Scalar> = Vec::with_capacity(count);
    append_uniform(&mut scalars, count, rng);
    scalars
}

} // verus!
