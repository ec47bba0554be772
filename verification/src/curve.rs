//! Points of the BLS12-377 G1 group, held by their coordinates.

use ark_bls12_377::Fq;
use ark_bls12_377::G1Projective;
use ark_ec::ProjectiveCurve;
use ark_ff::BigInteger384;
use ark_ff::PrimeField;
use ark_std::UniformRand;
use rand_chacha::ChaCha20Rng;
use vstd::prelude::*;

verus! {

/// The order `q` of the base field.
pub open spec fn base_modulus() -> nat {
    0x1ae3a4617c510eac63b05c06ca1493b1a22d9f300f5138f1ef3622fba094800170b5d44300000008508c00000000001nat
}

/// The integer that six little-endian 64-bit limbs spell.
pub open spec fn coordinate_value(limbs: [u64; 6]) -> nat {
    (limbs@[0] as nat) + (limbs@[1] as nat) * 0x1_0000_0000_0000_0000nat + (limbs@[2] as nat)
        * 0x1_0000_0000_0000_0000_0000_0000_0000_0000nat + (limbs@[3] as nat)
        * 0x1_0000_0000_0000_0000_0000_0000_0000_0000_0000_0000_0000_0000nat + (limbs@[4] as nat)
        * 0x1_0000_0000_0000_0000_0000_0000_0000_0000_0000_0000_0000_0000_0000_0000_0000_0000nat
        + (limbs@[5] as nat)
        * 0x1_0000_0000_0000_0000_0000_0000_0000_0000_0000_0000_0000_0000_0000_0000_0000_0000_0000_0000_0000_0000nat
}

/// The limbs spell an integer below the base field's order.
pub open spec fn is_reduced(limbs: [u64; 6]) -> bool {
    coordinate_value(limbs) < base_modulus()
}

/// A point in affine form: its two coordinates as integers in `[0, q)`, each
/// in six little-endian limbs, and a flag that marks the point at infinity.
#[derive(Clone, Copy, Debug, PartialEq, Eq, Hash)]
pub struct Point {
    pub x: [u64; 6],
    pub y: [u64; 6],
    pub infinity: bool,
}

impl Point {
    /// Both coordinates are reduced.
    pub open spec fn is_canonical(self) -> bool {
        is_reduced(self.x) && is_reduced(self.y)
    }
}

/// A point in Jacobian form, as it is sampled and before it is normalized:
/// three coordinates as integers in `[0, q)`.
#[derive(Clone, Copy, Debug, PartialEq, Eq, Hash)]
pub struct ProjectivePoint {
    pub x: [u64; 6],
    pub y: [u64; 6],
    pub z: [u64; 6],
}

impl ProjectivePoint {
    /// All three coordinates are reduced.
    pub open spec fn is_canonical(self) -> bool {
        is_reduced(self.x) && is_reduced(self.y) && is_reduced(self.z)
    }
}

/// Every affine point of the sequence has reduced coordinates.
pub open spec fn all_points_canonical(points: Seq<Point>) -> bool {
    forall|i: int| 0 <= i < points.len() ==> (#[trigger] points[i]).is_canonical()
}

/// Every Jacobian point of the sequence has reduced coordinates.
pub open spec fn all_projective_canonical(pool: Seq<ProjectivePoint>) -> bool {
    forall|i: int| 0 <= i < pool.len() ==> (#[trigger] pool[i]).is_canonical()
}

/// Trusted: `ark_std::UniformRand::rand` for `ark_bls12_377::G1Projective`,
/// its coordinates converted by `ark_ff::PrimeField::into_repr`. Which
/// point comes back depends on the generator's state; the contract claims only
/// that each returned coordinate is a reduced element of the base field.
#[verifier::external_body]
pub(crate) fn random_projective(rng: &mut ChaCha20Rng) -> (point: ProjectivePoint)
    ensures
        point.is_canonical(),
{
    let p = G1Projective::rand(rng);
    ProjectivePoint { x: p.x.into_repr().0, y: p.y.into_repr().0, z: p.z.into_repr().0 }
}

/// Trusted: `ark_ec::ProjectiveCurve::batch_normalization_into_affine` for
/// `ark_bls12_377::G1Projective`. Coordinates go in through
/// `ark_ff::PrimeField::from_repr`, which refuses an integer that is not below
/// the field order; the precondition excludes that. The contract claims that
/// one affine point comes back for each point handed in, and that each
/// returned coordinate is a reduced element of the base field.
#[verifier::external_body]
pub(crate) fn batch_normalize(pool: &Vec<ProjectivePoint>) -> (points: Vec<Point>)
    requires
        all_projective_canonical(pool@),
    ensures
        points@.len() == pool@.len(),
        all_points_canonical(points@),
{
    let inner: Vec<G1Projective> = pool.iter().map(
        |p|
            G1Projective::new(
                Fq::from_repr(BigInteger384(p.x)).unwrap(),
                Fq::from_repr(BigInteger384(p.y)).unwrap(),
                Fq::from_repr(BigInteger384(p.z)).unwrap(),
            ),
    ).collect();
    G1Projective::batch_normalization_into_affine(&inner).into_iter().map(
        |a| Point { x: a.x.into_repr().0, y: a.y.into_repr().0, infinity: a.infinity },
    ).collect()
}

/// Draws `count` independent random points in Jacobian form.
pub fn sample_pool(count: usize, rng: &mut ChaCha20Rng) -> (pool: Vec<ProjectivePoint>)
    ensures
        pool@.len() == count,
        all_projective_canonical(pool@),
{
    let mut pool: Vec<ProjectivePoint> = Vec::with_capacity(count);
    let mut drawn: usize = 0;
    while drawn < count
        invariant
            drawn <= count,
            pool@.len() == drawn,
            all_projective_canonical(pool@),
        decreases count - drawn,
    {
        let point = random_projective(rng);
        pool.push(point);
        drawn += 1;
    }
    pool
}

} // verus!
