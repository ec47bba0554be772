//! The generators: padded point sets with uniform scalars, and scalars that
//! follow the tiered frequency layout.

use crate::curve::all_points_canonical;
use crate::curve::batch_normalize;
use crate::curve::sample_pool;
use crate::curve::Point;
use crate::field::all_canonical;
use crate::field::append_uniform;
use crate::field::field_one;
use crate::field::field_zero;
use crate::field::generate_uniform_scalars;
use crate::field::Scalar;
use crate::layout::high_frequency_tier;
use crate::layout::is_shuffled;
use crate::layout::is_unshuffled;
use crate::layout::lemma_tiered_canonical;
use crate::layout::lemma_tiered_len;
use crate::layout::low_frequency_tier;
use crate::layout::tiered_block;
use crate::layout::Tier;
use crate::layout::MIN_LEN;
use crate::layout::ONE_COUNT;
use crate::layout::TIERED_LIMIT;
use crate::layout::ZERO_COUNT;
use crate::padding::lemma_padded_len;
use crate::padding::padded_len;
use crate::padding::replicate_pool;
use crate::random::draw_in_range;
use crate::random::entropy_rng;
use crate::random::shuffle_scalars;
use crate::runs::lemma_expand_len;
use crate::runs::push_repeated;
use crate::runs::run_values_canonical;
use crate::runs::total_within;
use crate::runs::write_runs;
use crate::runs::Run;
use rand_chacha::ChaCha20Rng;
use vstd::arithmetic::div_mod::*;
use vstd::prelude::*;

verus! {

/// The number of random points that a point set is replicated from, 2^15.
pub const POOL_SIZE: usize = 32_768;

/// Why a workload could not be generated.
#[derive(Clone, Copy, Debug, PartialEq, Eq)]
pub enum GenerateError {
    /// The requested length is below the least that the tiers are tuned for.
    InvalidInput,
    /// The identities and the two tiers came out longer than the requested
    /// length, so no fill could bring the workload to that length.
    InvariantViolation,
}

/// A non-uniform workload before shuffling, with the runs that make up its
/// two tiers.
#[derive(Debug)]
pub struct TieredScalars {
    /// The identities, both tiers written out, then the fill.
    pub scalars: Vec<Scalar>,
    /// The high-frequency tier.
    pub high: Vec<Run>,
    /// The low-frequency tier.
    pub low: Vec<Run>,
}

/// The contract of a generated point set and its uniform scalars.
pub open spec fn is_points_scalars(
    points: Seq<Point>,
    scalars: Seq<Scalar>,
    len: nat,
    batches: nat,
) -> bool {
    &&& points.len() == padded_len(POOL_SIZE as nat, len)
    &&& points.len() >= len
    &&& forall|i: int|
        0 <= i < points.len() ==> #[trigger] points[i] == points[i % (POOL_SIZE as int)]
    &&& all_points_canonical(points)
    &&& scalars.len() == len * batches
    &&& all_canonical(scalars)
}

/// Generates a point set and uniform scalars from the given generator: a pool
/// of 2^15 random points, normalized in one batch and doubled until it holds
/// at least `len` points, and `len * batches` uniform scalars.
///
/// The point set is not cut back to `len`: it holds the pool once, twice, four
/// times and so on, whichever first reaches `len`.
pub fn generate_points_scalars_with(len: usize, batches: usize, rng: &mut ChaCha20Rng) -> (out: (
    Vec<Point>,
    Vec<Scalar>,
))
    requires
        len * batches <= usize::MAX,
    ensures
        is_points_scalars(out.0@, out.1@, len as nat, batches as nat),
{
    let pool = sample_pool(POOL_SIZE, rng);
    let normalized = batch_normalize(&pool);
    let ghost origin = normalized@;
    let ghost period = POOL_SIZE as int;
    let points = replicate_pool(normalized, len);
    let scalars = generate_uniform_scalars(len * batches, rng);
    proof {
        lemma_padded_len(POOL_SIZE as nat, len as nat);
        assert forall|i: int| 0 <= i < points@.len() implies #[trigger] points@[i] == points@[i
            % period] by {
            lemma_mod_twice(i, period);
            assert(points@[i % period] == origin[(i % period) % period]);
        }
        assert forall|i: int| 0 <= i < points@.len() implies (#[trigger] points@[i]).is_canonical() by {
            assert(origin[i % period].is_canonical());
        }
    }
    (points, scalars)
}

/// Generates a point set and uniform scalars as
/// [`generate_points_scalars_with`] does, from a generator seeded by the
/// operating system.
pub fn generate_points_scalars(len: usize, batches: usize) -> (out: (Vec<Point>, Vec<Scalar>))
    requires
        len * batches <= usize::MAX,
    ensures
        is_points_scalars(out.0@, out.1@, len as nat, batches as nat),
{
    let mut rng = entropy_rng();
    generate_points_scalars_with(len, batches, &mut rng)
}

/// Draws one tier: a number of values from the tier's range, the values
/// themselves, then for each value in turn a count from the tier's range.
pub fn draw_tier(tier: Tier, rng: &mut ChaCha20Rng) -> (runs: Vec<Run>)
    requires
        tier.wf(),
    ensures
        tier.admits(runs@),
{
    let n = draw_in_range(rng, tier.min_values, tier.max_values);
    let values = generate_uniform_scalars(n, rng);
    let mut runs: Vec<Run> = Vec::with_capacity(n);
    let mut done: usize = 0;
    while done < n
        invariant
            tier.wf(),
            done <= n,
            values@.len() == n,
            all_canonical(values@),
            runs@.len() == done,
            forall|i: int|
                0 <= i < runs@.len() ==> tier.min_count <= (#[trigger] runs@[i]).count
                    < tier.max_count,
            run_values_canonical(runs@),
        decreases n - done,
    {
        let value = values[done];
        let count = draw_in_range(rng, tier.min_count, tier.max_count);
        runs.push(Run { value, count });
        done += 1;
    }
    runs
}

/// Starts a workload of `len` scalars: 150,000 zeros, 50,000 ones, then the
/// two tiers written out. Fails if that alone is longer than `len`.
pub fn write_tiered_block(len: usize, high: &Vec<Run>, low: &Vec<Run>) -> (result: Result<
    Vec<Scalar>,
    GenerateError,
>)
    ensures
        tiered_block(high@, low@).len() <= len ==> (result matches Ok(scalars) && scalars@
            == tiered_block(high@, low@)),
        tiered_block(high@, low@).len() > len ==> result == Err::<Vec<Scalar>, GenerateError>(
            GenerateError::InvariantViolation,
        ),
{
    proof {
        lemma_expand_len(high@);
        lemma_expand_len(low@);
    }
    if len < ZERO_COUNT + ONE_COUNT {
        return Err(GenerateError::InvariantViolation);
    }
    let budget = len - (ZERO_COUNT + ONE_COUNT);
    let high_total = match total_within(high, budget) {
        Some(sum) => sum,
        None => {
            return Err(GenerateError::InvariantViolation);
        },
    };
    if total_within(low, budget - high_total).is_none() {
        return Err(GenerateError::InvariantViolation);
    }
    let mut scalars: Vec<Scalar> = Vec::with_capacity(len);
    push_repeated(&mut scalars, field_zero(), ZERO_COUNT);
    push_repeated(&mut scalars, field_one(), ONE_COUNT);
    write_runs(&mut scalars, high);
    write_runs(&mut scalars, low);
    assert(scalars@ =~= tiered_block(high@, low@));
    Ok(scalars)
}

/// Generates a non-uniform workload of `len` scalars from the given
/// generator, without shuffling it: 150,000 zeros, 50,000 ones, the
/// high-frequency tier, the low-frequency tier, and single random values up to
/// `len`.
///
/// A length below 2^23 is refused. From 10,970,303 on the tiers always fit;
/// between the two they fit unless the draws come out near the top of every
/// range at once, and the workload fails if they do not.
pub fn generate_nonuniform_unshuffled(len: usize, rng: &mut ChaCha20Rng) -> (result: Result<
    TieredScalars,
    GenerateError,
>)
    ensures
        len < MIN_LEN <==> result == Err::<TieredScalars, GenerateError>(
            GenerateError::InvalidInput,
        ),
        len >= TIERED_LIMIT ==> result is Ok,
        result == Err::<TieredScalars, GenerateError>(GenerateError::InvariantViolation)
            ==> MIN_LEN <= len < TIERED_LIMIT,
        result matches Ok(w) ==> w.scalars@.len() == len && is_unshuffled(
            w.scalars@,
            w.high@,
            w.low@,
        ),
{
    if len < MIN_LEN {
        return Err(GenerateError::InvalidInput);
    }
    let high = draw_tier(high_frequency_tier(), rng);
    let low = draw_tier(low_frequency_tier(), rng);
    proof {
        lemma_tiered_len(high@, low@);
        lemma_tiered_canonical(high@, low@);
    }
    match write_tiered_block(len, &high, &low) {
        Err(e) => Err(e),
        Ok(mut scalars) => {
            let rest = len - scalars.len();
            append_uniform(&mut scalars, rest, rng);
            Ok(TieredScalars { scalars, high, low })
        },
    }
}

/// Generates a non-uniform workload of `len` scalars from the given generator
/// as [`generate_nonuniform_unshuffled`] does, then shuffles it. The result has
/// exactly `len` entries whenever there is one.
pub fn generate_nonuniform_scalars_with(len: usize, rng: &mut ChaCha20Rng) -> (result: Result<
    Vec<Scalar>,
    GenerateError,
>)
    ensures
        len < MIN_LEN <==> result == Err::<Vec<Scalar>, GenerateError>(
            GenerateError::InvalidInput,
        ),
        len >= TIERED_LIMIT ==> result is Ok,
        result == Err::<Vec<Scalar>, GenerateError>(GenerateError::InvariantViolation)
            ==> MIN_LEN <= len < TIERED_LIMIT,
        result matches Ok(scalars) ==> scalars@.len() == len && is_shuffled(scalars@)
            && all_canonical(scalars@),
{
    match generate_nonuniform_unshuffled(len, rng) {
        Err(e) => Err(e),
        Ok(workload) => {
            let ghost raw = workload.scalars@;
            let ghost high = workload.high@;
            let ghost low = workload.low@;
            let mut scalars = workload.scalars;
            shuffle_scalars(&mut scalars, rng);
            assert(is_unshuffled(raw, high, low));
            Ok(scalars)
        },
    }
}

/// Generates a shuffled non-uniform workload of `len` scalars as
/// [`generate_nonuniform_scalars_with`] does, from a generator seeded by the
/// operating system.
pub fn generate_nonuniform_scalars(len: usize) -> (result: Result<Vec<Scalar>, GenerateError>)
    ensures
        len < MIN_LEN <==> result == Err::<Vec<Scalar>, GenerateError>(
            GenerateError::InvalidInput,
        ),
        len >= TIERED_LIMIT ==> result is Ok,
        result == Err::<Vec<Scalar>, GenerateError>(GenerateError::InvariantViolation)
            ==> MIN_LEN <= len < TIERED_LIMIT,
        result matches Ok(scalars) ==> scalars@.len() == len && is_shuffled(scalars@)
            && all_canonical(scalars@),
{
    let mut rng = entropy_rng();
    generate_nonuniform_scalars_with(len, &mut rng)
}

} // verus!
