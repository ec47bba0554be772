//! Runs: a value together with the number of times it is repeated, and the
//! sequence that a list of runs stands for.

use crate::field::all_canonical;
use crate::field::Scalar;
use vstd::multiset::*;
use vstd::prelude::*;
use vstd::seq_lib::*;

verus! {

/// One value and how often it is written out in a row.
#[derive(Clone, Copy, Debug, PartialEq, Eq)]
pub struct Run {
    pub value: Scalar,
    pub count: usize,
}

/// `count` copies of `value`.
pub open spec fn repeated(value: Scalar, count: nat) -> Seq<Scalar> {
    Seq::new(count, |i: int| value)
}

/// The runs written out one after another, each value as often as its count.
pub open spec fn expand(runs: Seq<Run>) -> Seq<Scalar>
    decreases runs.len(),
{
    if runs.len() == 0 {
        Seq::empty()
    } else {
        expand(runs.drop_last()) + repeated(runs.last().value, runs.last().count as nat)
    }
}

/// The sum of the counts.
pub open spec fn total(runs: Seq<Run>) -> nat
    decreases runs.len(),
{
    if runs.len() == 0 {
        0
    } else {
        total(runs.drop_last()) + runs.last().count as nat
    }
}

/// Every run carries a reduced field element.
pub open spec fn run_values_canonical(runs: Seq<Run>) -> bool {
    forall|i: int| 0 <= i < runs.len() ==> (#[trigger] runs[i]).value.is_canonical()
}

/// Adding a run at the end appends its copies and adds its count.
pub proof fn lemma_expand_push(runs: Seq<Run>, run: Run)
    ensures
        expand(runs.push(run)) == expand(runs) + repeated(run.value, run.count as nat),
        total(runs.push(run)) == total(runs) + run.count,
{
    assert(runs.push(run).drop_last() =~= runs);
}

/// The expansion is as long as the counts add up to.
pub proof fn lemma_expand_len(runs: Seq<Run>)
    ensures
        expand(runs).len() == total(runs),
    decreases runs.len(),
{
    if runs.len() > 0 {
        lemma_expand_len(runs.drop_last());
    }
}

/// With every count in `[low, high)`, the total lies between `low` and
/// `high - 1` times the number of runs.
pub proof fn lemma_total_bounds(runs: Seq<Run>, low: nat, high: nat)
    requires
        forall|i: int| 0 <= i < runs.len() ==> low <= (#[trigger] runs[i]).count < high,
    ensures
        runs.len() * low <= total(runs) <= runs.len() * (high - 1),
    decreases runs.len(),
{
    if runs.len() > 0 {
        let head = runs.drop_last();
        assert forall|i: int| 0 <= i < head.len() implies low <= (#[trigger] head[i]).count
            < high by {
            assert(head[i] == runs[i]);
        }
        lemma_total_bounds(head, low, high);
        assert(low <= runs.last().count < high);
        assert(runs.len() * low == head.len() * low + low) by (nonlinear_arith)
            requires
                runs.len() == head.len() + 1,
        ;
        assert(runs.len() * (high - 1) == head.len() * (high - 1) + (high - 1))
            by (nonlinear_arith)
            requires
                runs.len() == head.len() + 1,
        ;
    }
}

/// A block of copies holds its value as often as its length and nothing else.
pub proof fn lemma_repeated_count(value: Scalar, count: nat, other: Scalar)
    ensures
        repeated(value, count).to_multiset().count(other) == if other == value {
            count
        } else {
            0
        },
    decreases count,
{
    broadcast use group_to_multiset_ensures, group_multiset_axioms;

    if count == 0 {
        assert(repeated(value, count) =~= Seq::<Scalar>::empty());
    } else {
        let shorter = repeated(value, (count - 1) as nat);
        lemma_repeated_count(value, (count - 1) as nat, other);
        assert(repeated(value, count) =~= shorter.push(value));
    }
}

/// Every copy of a canonical value is canonical.
pub proof fn lemma_repeated_canonical(value: Scalar, count: nat)
    requires
        value.is_canonical(),
    ensures
        all_canonical(repeated(value, count)),
{
}

/// Runs of canonical values expand to canonical values.
pub proof fn lemma_expand_canonical(runs: Seq<Run>)
    requires
        run_values_canonical(runs),
    ensures
        all_canonical(expand(runs)),
    decreases runs.len(),
{
    if runs.len() > 0 {
        let head = runs.drop_last();
        assert forall|i: int| 0 <= i < head.len() implies (#[trigger] head[i]).value.is_canonical() by {
            assert(head[i] == runs[i]);
        }
        lemma_expand_canonical(head);
        assert(runs[runs.len() - 1].value.is_canonical());
        lemma_repeated_canonical(runs.last().value, runs.last().count as nat);
    }
}

/// The value of each run occurs in the expansion at least as often as the
/// run's count; more often only where another run carries the same value.
pub proof fn lemma_expand_count(runs: Seq<Run>, i: int)
    requires
        0 <= i < runs.len(),
    ensures
        expand(runs).to_multiset().count(runs[i].value) >= runs[i].count,
    decreases runs.len(),
{
    broadcast use group_multiset_axioms;

    let head = runs.drop_last();
    let tail = repeated(runs.last().value, runs.last().count as nat);
    lemma_multiset_commutative(expand(head), tail);
    lemma_repeated_count(runs.last().value, runs.last().count as nat, runs[i].value);
    if i < runs.len() - 1 {
        lemma_expand_count(head, i);
        assert(head[i] == runs[i]);
    }
}

/// The counts of the first `k` runs add up to no more than all of them do.
pub proof fn lemma_total_prefix(runs: Seq<Run>, k: int)
    requires
        0 <= k <= runs.len(),
    ensures
        total(runs.subrange(0, k)) <= total(runs),
    decreases runs.len(),
{
    if k == runs.len() {
        assert(runs.subrange(0, k) =~= runs);
    } else {
        lemma_total_prefix(runs.drop_last(), k);
        assert(runs.drop_last().subrange(0, k) =~= runs.subrange(0, k));
    }
}

/// Adds up the counts, giving up as soon as they pass `budget`.
pub fn total_within(runs: &Vec<Run>, budget: usize) -> (sum: Option<usize>)
    ensures
        total(runs@) <= budget ==> sum == Some(total(runs@) as usize),
        total(runs@) > budget ==> sum is None,
{
    let mut sum: usize = 0;
    let mut seen: usize = 0;
    assert(runs@.subrange(0, 0) =~= Seq::<Run>::empty());
    while seen < runs.len()
        invariant
            seen <= runs@.len(),
            sum == total(runs@.subrange(0, seen as int)),
            sum <= budget,
        decreases runs@.len() - seen,
    {
        let count = runs[seen].count;
        proof {
            lemma_expand_push(runs@.subrange(0, seen as int), runs@[seen as int]);
            assert(runs@.subrange(0, seen as int).push(runs@[seen as int]) =~= runs@.subrange(
                0,
                seen + 1,
            ));
            lemma_total_prefix(runs@, seen + 1);
        }
        if count > budget - sum {
            return None;
        }
        sum += count;
        seen += 1;
    }
    assert(runs@.subrange(0, seen as int) =~= runs@);
    Some(sum)
}

/// Writes the runs out at the end of `out`, each value as often as its count.
pub fn write_runs(out: &mut Vec<Scalar>, runs: &Vec<Run>)
    ensures
        final(out)@ == old(out)@ + expand(runs@),
{
    let mut done: usize = 0;
    assert(runs@.subrange(0, 0) =~= Seq::<Run>::empty());
    assert(out@ =~= old(out)@ + expand(runs@.subrange(0, 0)));
    while done < runs.len()
        invariant
            done <= runs@.len(),
            out@ == old(out)@ + expand(runs@.subrange(0, done as int)),
        decreases runs@.len() - done,
    {
        let run = runs[done];
        push_repeated(out, run.value, run.count);
        proof {
            lemma_expand_push(runs@.subrange(0, done as int), run);
            assert(runs@.subrange(0, done as int).push(run) =~= runs@.subrange(0, done + 1));
            assert(out@ =~= old(out)@ + expand(runs@.subrange(0, done + 1)));
        }
        done += 1;
    }
    assert(runs@.subrange(0, done as int) =~= runs@);
}

/// Appends `count` copies of `value` to `out`.
pub fn push_repeated(out: &mut Vec<Scalar>, value: Scalar, count: usize)
    ensures
        final(out)@ == old(out)@ + repeated(value, count as nat),
{
    let mut written: usize = 0;
    while written < count
        invariant
            written <= count,
            out@ == old(out)@ + repeated(value, written as nat),
        decreases count - written,
    {
        out.push(value);
        written += 1;
        assert(out@ =~= old(out)@ + repeated(value, written as nat));
    }
}

} // verus!
