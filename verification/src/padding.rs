//! Padding a pool of points to a requested length by doubling it.

use crate::curve::Point;
use vstd::arithmetic::div_mod::*;
use vstd::prelude::*;

verus! {

/// The length that doubling reaches from `pool_len` when it stops as soon as
/// `len` is reached.
pub open spec fn padded_len(pool_len: nat, len: nat) -> nat
    decreases
        (if pool_len < len {
            len - pool_len
        } else {
            0
        }),
{
    if pool_len == 0 || pool_len >= len {
        pool_len
    } else {
        padded_len(2 * pool_len, len)
    }
}

/// The pool repeated over and over up to the padded length.
pub open spec fn replicated(pool: Seq<Point>, len: nat) -> Seq<Point> {
    Seq::new(padded_len(pool.len(), len), |i: int| pool[i % (pool.len() as int)])
}

/// The padded length reaches `len`, is a multiple of the pool's length, and
/// overshoots by less than a factor of two unless the pool alone suffices.
pub proof fn lemma_padded_len(pool_len: nat, len: nat)
    requires
        pool_len > 0,
    ensures
        padded_len(pool_len, len) >= len,
        padded_len(pool_len, len) >= pool_len,
        padded_len(pool_len, len) % pool_len == 0,
        padded_len(pool_len, len) == pool_len || padded_len(pool_len, len) < 2 * len,
    decreases
        (if pool_len < len {
            len - pool_len
        } else {
            0
        }),
{
    if pool_len >= len {
        lemma_mod_self_0(pool_len as int);
    } else {
        lemma_padded_len(2 * pool_len, len);
        let reached = padded_len(2 * pool_len, len);
        lemma_mod_mod(reached as int, pool_len as int, 2);
        assert(pool_len * 2 == 2 * pool_len);
        if reached == 2 * pool_len {
            assert(reached < 2 * len);
        }
    }
}

/// Doubles `pool` until it holds at least `len` points.
pub fn replicate_pool(pool: Vec<Point>, len: usize) -> (points: Vec<Point>)
    requires
        pool@.len() > 0,
    ensures
        points@ == replicated(pool@, len as nat),
{
    let ghost origin = pool@;
    let ghost period = pool@.len() as int;
    let ghost mut copies: int = 1;
    let mut points = pool;
    proof {
        assert forall|i: int| 0 <= i < points@.len() implies #[trigger] points@[i] == origin[i
            % period] by {
            lemma_small_mod(i as nat, period as nat);
        }
    }
    while points.len() < len
        invariant
            period == origin.len() > 0,
            copies >= 1,
            points@.len() == copies * period,
            points@.len() >= period,
            padded_len(points@.len(), len as nat) == padded_len(origin.len(), len as nat),
            forall|i: int| 0 <= i < points@.len() ==> #[trigger] points@[i] == origin[i % period],
        decreases
            (if points.len() < len {
                len - points.len()
            } else {
                0
            }),
    {
        let ghost before = points@;
        let mut copy = points.clone();
        assert(copy@ =~= before);
        points.append(&mut copy);
        proof {
            assert((2 * copies) * period == 2 * (copies * period)) by (nonlinear_arith);
            assert forall|i: int| 0 <= i < points@.len() implies #[trigger] points@[i] == origin[i
                % period] by {
                if i >= before.len() {
                    let j = i - before.len();
                    assert(points@[i] == before[j]);
                    lemma_mod_multiples_vanish(copies, j, period);
                    assert(period * copies == copies * period) by (nonlinear_arith);
                }
            }
            copies = 2 * copies;
        }
    }
    assert(points@ =~= replicated(origin, len as nat));
    points
}

} // verus!
