//! The shape of a non-uniform scalar workload: two blocks of identities, two
//! frequency tiers of repeated random values, and a fill of single values.

use crate::field::all_canonical;
use crate::field::lemma_identities;
use crate::field::lemma_same_values_canonical;
use crate::field::Scalar;
use crate::runs::expand;
use crate::runs::lemma_expand_canonical;
use crate::runs::lemma_expand_count;
use crate::runs::lemma_expand_len;
use crate::runs::lemma_repeated_canonical;
use crate::runs::lemma_repeated_count;
use crate::runs::lemma_total_bounds;
use crate::runs::repeated;
use crate::runs::run_values_canonical;
use crate::runs::total;
use crate::runs::Run;
use vstd::multiset::*;
use vstd::prelude::*;
use vstd::seq_lib::*;

verus! {

/// Copies of the additive identity at the head of a workload.
pub const ZERO_COUNT: usize = 150_000;

/// Copies of the multiplicative identity that follow them.
pub const ONE_COUNT: usize = 50_000;

/// The shortest workload the tiers are tuned for, 2^23.
pub const MIN_LEN: usize = 8_388_608;

/// One more than the longest that the identities and both tiers can get:
/// 200,000 + 299 * 7,999 + 20,999 * 399 + 1. A workload at least this long
/// always has room for them.
pub const TIERED_LIMIT: usize = 10_970_303;

/// The least that the identities and both tiers take up:
/// 200,000 + 200 * 4,000 + 19,000 * 200.
pub const TIERED_MIN: usize = 4_800_000;

/// A frequency tier: how many distinct draws it holds and how often each is
/// repeated, both as half-open ranges.
#[derive(Clone, Copy, Debug, PartialEq, Eq)]
pub struct Tier {
    pub min_values: usize,
    pub max_values: usize,
    pub min_count: usize,
    pub max_count: usize,
}

impl Tier {
    /// Both ranges are non-empty.
    pub open spec fn wf(self) -> bool {
        self.min_values < self.max_values && self.min_count < self.max_count
    }

    /// The runs fit the tier: their number and each count lie in its ranges,
    /// and each value is a reduced field element.
    pub open spec fn admits(self, runs: Seq<Run>) -> bool {
        &&& self.min_values <= runs.len() < self.max_values
        &&& forall|i: int|
            0 <= i < runs.len() ==> self.min_count <= (#[trigger] runs[i]).count < self.max_count
        &&& run_values_canonical(runs)
    }
}

/// A few hundred values that each occur thousands of times.
pub open spec fn high_tier() -> Tier {
    Tier { min_values: 200, max_values: 300, min_count: 4_000, max_count: 8_000 }
}

/// Some twenty thousand values that each occur a few hundred times.
pub open spec fn low_tier() -> Tier {
    Tier { min_values: 19_000, max_values: 21_000, min_count: 200, max_count: 400 }
}

/// The high-frequency tier.
pub fn high_frequency_tier() -> (tier: Tier)
    ensures
        tier == high_tier(),
{
    Tier { min_values: 200, max_values: 300, min_count: 4_000, max_count: 8_000 }
}

/// The low-frequency tier.
pub fn low_frequency_tier() -> (tier: Tier)
    ensures
        tier == low_tier(),
{
    Tier { min_values: 19_000, max_values: 21_000, min_count: 200, max_count: 400 }
}

/// The identities that lead a workload: zeros, then ones.
pub open spec fn special_block() -> Seq<Scalar> {
    repeated(Scalar::zero(), ZERO_COUNT as nat) + repeated(Scalar::one(), ONE_COUNT as nat)
}

/// The identities followed by both tiers written out.
pub open spec fn tiered_block(high: Seq<Run>, low: Seq<Run>) -> Seq<Scalar> {
    special_block() + expand(high) + expand(low)
}

/// `raw` is a workload before shuffling whose tiers are `high` and `low`: the
/// runs fit their tiers, `raw` starts with the tiered block, and whatever
/// follows it (the fill) is made of reduced field elements too.
pub open spec fn is_unshuffled(raw: Seq<Scalar>, high: Seq<Run>, low: Seq<Run>) -> bool {
    &&& high_tier().admits(high)
    &&& low_tier().admits(low)
    &&& tiered_block(high, low).is_prefix_of(raw)
    &&& all_canonical(raw)
}

/// The number of fill values in `raw`.
pub open spec fn fill_len(raw: Seq<Scalar>, high: Seq<Run>, low: Seq<Run>) -> int {
    raw.len() - tiered_block(high, low).len()
}

/// `out` holds the values of some unshuffled workload, each as often as there,
/// in any order.
pub open spec fn is_shuffled(out: Seq<Scalar>) -> bool {
    exists|raw: Seq<Scalar>, high: Seq<Run>, low: Seq<Run>| #[trigger]
        is_unshuffled(raw, high, low) && out.to_multiset() == raw.to_multiset()
}

/// The tiered block is as long as its parts add up to, and its length lies
/// between the least and the most that the tiers' ranges allow.
pub proof fn lemma_tiered_len(high: Seq<Run>, low: Seq<Run>)
    requires
        high_tier().admits(high),
        low_tier().admits(low),
    ensures
        tiered_block(high, low).len() == ZERO_COUNT + ONE_COUNT + total(high) + total(low),
        200 * 4_000 <= total(high) <= 299 * 7_999,
        19_000 * 200 <= total(low) <= 20_999 * 399,
        TIERED_MIN <= tiered_block(high, low).len() < TIERED_LIMIT,
{
    lemma_expand_len(high);
    lemma_expand_len(low);
    lemma_total_bounds(high, 4_000, 8_000);
    lemma_total_bounds(low, 200, 400);
    assert(200 * 4_000 <= high.len() * 4_000 && high.len() * 7_999 <= 299 * 7_999)
        by (nonlinear_arith)
        requires
            200 <= high.len() < 300,
    ;
    assert(19_000 * 200 <= low.len() * 200 && low.len() * 399 <= 20_999 * 399)
        by (nonlinear_arith)
        requires
            19_000 <= low.len() < 21_000,
    ;
}

/// In a workload before shuffling, the first 150,000 entries are zero and the
/// next 50,000 are one.
pub proof fn lemma_identities_lead(raw: Seq<Scalar>, high: Seq<Run>, low: Seq<Run>)
    requires
        is_unshuffled(raw, high, low),
    ensures
        raw.len() >= ZERO_COUNT + ONE_COUNT,
        forall|i: int| 0 <= i < ZERO_COUNT ==> raw[i] == Scalar::zero(),
        forall|i: int| ZERO_COUNT <= i < ZERO_COUNT + ONE_COUNT ==> raw[i] == Scalar::one(),
{
    let block = tiered_block(high, low);
    assert forall|i: int| 0 <= i < ZERO_COUNT + ONE_COUNT implies raw[i] == if i < ZERO_COUNT {
        Scalar::zero()
    } else {
        Scalar::one()
    } by {
        assert(raw[i] == raw.subrange(0, block.len() as int)[i]);
        assert(block[i] == special_block()[i]);
    }
}

/// The parts of a workload add up to its length: the zeros, the ones, both
/// tiers' totals and the fill.
pub proof fn lemma_parts_sum(raw: Seq<Scalar>, high: Seq<Run>, low: Seq<Run>)
    requires
        is_unshuffled(raw, high, low),
    ensures
        fill_len(raw, high, low) >= 0,
        ZERO_COUNT + ONE_COUNT + total(high) + total(low) + fill_len(raw, high, low)
            == raw.len(),
{
    lemma_tiered_len(high, low);
}

/// A workload before shuffling is determined by what was drawn for it: two
/// workloads with the same tiers and the same fill agree entry by entry.
pub proof fn lemma_same_draws_same_workload(
    first: Seq<Scalar>,
    second: Seq<Scalar>,
    high: Seq<Run>,
    low: Seq<Run>,
)
    requires
        is_unshuffled(first, high, low),
        is_unshuffled(second, high, low),
        first.len() == second.len(),
        first.subrange(tiered_block(high, low).len() as int, first.len() as int)
            == second.subrange(tiered_block(high, low).len() as int, second.len() as int),
    ensures
        first == second,
{
    let block = tiered_block(high, low);
    let start = block.len() as int;
    assert forall|i: int| 0 <= i < first.len() implies first[i] == second[i] by {
        if i < start {
            assert(first[i] == first.subrange(0, start)[i]);
            assert(second[i] == second.subrange(0, start)[i]);
        } else {
            assert(first[i] == first.subrange(start, first.len() as int)[i - start]);
            assert(second[i] == second.subrange(start, second.len() as int)[i - start]);
        }
    }
    assert(first =~= second);
}

/// Before shuffling, the value of every run occurs in the workload at least
/// as often as the run's count says.
pub proof fn lemma_run_occurs(raw: Seq<Scalar>, high: Seq<Run>, low: Seq<Run>, i: int)
    requires
        is_unshuffled(raw, high, low),
    ensures
        0 <= i < high.len() ==> raw.to_multiset().count(high[i].value) >= high[i].count >= 4_000,
        0 <= i < low.len() ==> raw.to_multiset().count(low[i].value) >= low[i].count >= 200,
{
    broadcast use group_multiset_axioms;

    let block = tiered_block(high, low);
    let rest = raw.subrange(block.len() as int, raw.len() as int);
    assert(raw =~= block + rest);
    lemma_multiset_commutative(block, rest);
    lemma_multiset_commutative(special_block() + expand(high), expand(low));
    lemma_multiset_commutative(special_block(), expand(high));
    if 0 <= i < high.len() {
        lemma_expand_count(high, i);
    }
    if 0 <= i < low.len() {
        lemma_expand_count(low, i);
    }
}

/// Before shuffling, zero occurs at least 150,000 times and one at least
/// 50,000 times.
pub proof fn lemma_identity_counts(raw: Seq<Scalar>, high: Seq<Run>, low: Seq<Run>)
    requires
        is_unshuffled(raw, high, low),
    ensures
        raw.to_multiset().count(Scalar::zero()) >= ZERO_COUNT,
        raw.to_multiset().count(Scalar::one()) >= ONE_COUNT,
{
    broadcast use group_multiset_axioms;

    let block = tiered_block(high, low);
    let rest = raw.subrange(block.len() as int, raw.len() as int);
    let zeros = repeated(Scalar::zero(), ZERO_COUNT as nat);
    let ones = repeated(Scalar::one(), ONE_COUNT as nat);
    assert(raw =~= block + rest);
    lemma_multiset_commutative(block, rest);
    lemma_multiset_commutative(special_block() + expand(high), expand(low));
    lemma_multiset_commutative(special_block(), expand(high));
    lemma_multiset_commutative(zeros, ones);
    lemma_repeated_count(Scalar::zero(), ZERO_COUNT as nat, Scalar::zero());
    lemma_repeated_count(Scalar::one(), ONE_COUNT as nat, Scalar::one());
}

/// Shuffling keeps what a workload holds: its length, the identities' counts,
/// and that every entry is a reduced field element.
pub proof fn lemma_shuffled_keeps(out: Seq<Scalar>)
    requires
        is_shuffled(out),
    ensures
        out.len() >= TIERED_MIN,
        out.to_multiset().count(Scalar::zero()) >= ZERO_COUNT,
        out.to_multiset().count(Scalar::one()) >= ONE_COUNT,
        all_canonical(out),
{
    broadcast use group_to_multiset_ensures;

    let (raw, high, low) = choose|raw: Seq<Scalar>, high: Seq<Run>, low: Seq<Run>| #[trigger]
        is_unshuffled(raw, high, low) && out.to_multiset() == raw.to_multiset();
    lemma_identity_counts(raw, high, low);
    lemma_tiered_len(high, low);
    lemma_same_values_canonical(raw, out);
}

/// The tiered block is made of reduced field elements.
pub proof fn lemma_tiered_canonical(high: Seq<Run>, low: Seq<Run>)
    requires
        run_values_canonical(high),
        run_values_canonical(low),
    ensures
        all_canonical(tiered_block(high, low)),
{
    lemma_identities();
    lemma_repeated_canonical(Scalar::zero(), ZERO_COUNT as nat);
    lemma_repeated_canonical(Scalar::one(), ONE_COUNT as nat);
    lemma_expand_canonical(high);
    lemma_expand_canonical(low);
}

} // verus!
