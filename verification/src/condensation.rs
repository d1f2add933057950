//! Support-point condensation: the weight-threshold stage and the index
//! bookkeeping of the rank-revealing stage.
//!
//! The weight stage keeps exactly the columns whose weight strictly exceeds
//! the threshold (a fraction of the largest weight, computed by the numeric
//! host). The rank-revealing stage receives the pivot order and the diagonal
//! ratios of the host's QR factorization and keeps the pivots whose ratio
//! magnitude reaches the tolerance. Pruning by a fixed threshold is proved
//! idempotent, and the largest weight is proved to survive it, so the
//! recomputed threshold of a second pass would be the same — condensing twice
//! equals condensing once at this stage.

use crate::fp;
use vstd::prelude::*;
use vstd::seq_lib::*;

verus! {

/// The weights that survive a threshold: those strictly above it.
pub open spec fn survivors(lambda: Seq<u64>, threshold: u64) -> Seq<u64> {
    lambda.filter(|x: u64| fp::f_lt(threshold, x))
}

/// Every element of a filtered sequence is an element of the original.
proof fn lemma_filter_elems<A>(s: Seq<A>, pred: spec_fn(A) -> bool)
    ensures
        forall|i: int|
            0 <= i < s.filter(pred).len() ==> s.contains(#[trigger] s.filter(pred)[i]),
    decreases s.len(),
{
    reveal(Seq::filter);
    if s.len() > 0 {
        lemma_filter_elems(s.drop_last(), pred);
        assert forall|i: int|
            0 <= i < s.filter(pred).len() implies s.contains(#[trigger] s.filter(pred)[i]) by {
            let out = s.filter(pred);
            let sub = s.drop_last().filter(pred);
            if i < sub.len() {
                assert(sub[i] == out[i]);
                let j = choose|j: int| 0 <= j < s.drop_last().len() && s.drop_last()[j] == sub[i];
                assert(s[j] == out[i]);
            } else {
                assert(out[i] == s.last());
                assert(s[s.len() - 1] == out[i]);
            }
        }
    }
}

/// Filtering a sequence whose elements all satisfy the predicate returns it
/// unchanged.
proof fn lemma_filter_all<A>(s: Seq<A>, pred: spec_fn(A) -> bool)
    requires
        forall|i: int| 0 <= i < s.len() ==> pred(#[trigger] s[i]),
    ensures
        s.filter(pred) == s,
    decreases s.len(),
{
    reveal(Seq::filter);
    if s.len() == 0 {
        assert(s.filter(pred) =~= s);
    } else {
        lemma_filter_all(s.drop_last(), pred);
        assert(s.filter(pred) =~= s);
    }
}

/// Pruning by a weight threshold is idempotent: everything that survives one
/// pass strictly exceeds the threshold, so a second pass with the same
/// threshold keeps it all.
pub proof fn lemma_prune_idempotent(lambda: Seq<u64>, threshold: u64)
    ensures
        survivors(survivors(lambda, threshold), threshold) == survivors(lambda, threshold),
{
    broadcast use vstd::seq_lib::group_filter_ensures;

    let pred = |x: u64| fp::f_lt(threshold, x);
    let once = lambda.filter(pred);
    lemma_filter_all(once, pred);
}

/// The largest weight survives pruning whenever it strictly exceeds the
/// threshold, and it stays the largest among the survivors; the threshold the
/// engine recomputes from the pruned weights is therefore the one it pruned
/// with.
pub proof fn lemma_prune_keeps_max(lambda: Seq<u64>, threshold: u64, m: u64)
    requires
        lambda.contains(m),
        forall|i: int| 0 <= i < lambda.len() ==> fp::f_le(#[trigger] lambda[i], m),
        fp::f_lt(threshold, m),
    ensures
        survivors(lambda, threshold).contains(m),
        forall|i: int|
            0 <= i < survivors(lambda, threshold).len() ==> fp::f_le(
                #[trigger] survivors(lambda, threshold)[i],
                m,
            ),
{
    broadcast use vstd::seq_lib::group_filter_ensures;

    let pred = |x: u64| fp::f_lt(threshold, x);
    lemma_filter_elems(lambda, pred);
    let j = choose|j: int| 0 <= j < lambda.len() && lambda[j] == m;
    assert(pred(lambda[j]));
    assert forall|i: int|
        0 <= i < survivors(lambda, threshold).len() implies fp::f_le(
        #[trigger] survivors(lambda, threshold)[i],
        m,
    ) by {
        let x = survivors(lambda, threshold)[i];
        assert(lambda.contains(x));
    }
}

/// Indices of the weights that strictly exceed the threshold, in ascending
/// order; the values at those indices are exactly the survivors, in order.
pub fn keep_indices(lambda: &Vec<u64>, threshold: u64) -> (r: Vec<usize>)
    ensures
        forall|t: int|
            0 <= t < r@.len() ==> (#[trigger] r@[t]) < lambda@.len() && fp::f_lt(
                threshold,
                lambda@[r@[t] as int],
            ),
        forall|t1: int, t2: int| 0 <= t1 < t2 < r@.len() ==> r@[t1] < r@[t2],
        forall|i: int|
            0 <= i < lambda@.len() && fp::f_lt(threshold, #[trigger] lambda@[i]) ==> exists|t: int|
                0 <= t < r@.len() && r@[t] == i,
        r@.map_values(|t: usize| lambda@[t as int]) == survivors(lambda@, threshold),
{
    let ghost pred = |x: u64| fp::f_lt(threshold, x);
    let mut out: Vec<usize> = Vec::new();
    let mut i: usize = 0;
    proof {
        reveal(Seq::filter);
        assert(lambda@.subrange(0, 0).filter(pred) =~= Seq::<u64>::empty());
        assert(out@.map_values(|t: usize| lambda@[t as int]) =~= Seq::<u64>::empty());
    }
    while i < lambda.len()
        invariant
            0 <= i <= lambda@.len(),
            pred == (|x: u64| fp::f_lt(threshold, x)),
            forall|t: int|
                0 <= t < out@.len() ==> (#[trigger] out@[t]) < i && fp::f_lt(
                    threshold,
                    lambda@[out@[t] as int],
                ),
            forall|t1: int, t2: int| 0 <= t1 < t2 < out@.len() ==> out@[t1] < out@[t2],
            forall|j: int|
                0 <= j < i && fp::f_lt(threshold, #[trigger] lambda@[j]) ==> exists|t: int|
                    0 <= t < out@.len() && out@[t] == j,
            out@.map_values(|t: usize| lambda@[t as int]) == lambda@.subrange(0, i as int).filter(
                pred,
            ),
        decreases lambda@.len() - i,
    {
        let ghost pre = out@;
        let ghost prefix = lambda@.subrange(0, i as int);
        if fp::lt(threshold, lambda[i]) {
            out.push(i);
        }
        proof {
            reveal(Seq::filter);
            assert(lambda@.subrange(0, i + 1).drop_last() =~= prefix);
            assert(lambda@.subrange(0, i + 1).last() == lambda@[i as int]);
            if pred(lambda@[i as int]) {
                assert(out@ == pre.push(i));
                assert(out@.map_values(|t: usize| lambda@[t as int]) =~= pre.map_values(
                    |t: usize| lambda@[t as int],
                ).push(lambda@[i as int]));
            } else {
                assert(out@.map_values(|t: usize| lambda@[t as int]) == prefix.filter(pred));
            }
            assert forall|j: int|
                0 <= j < i + 1 && fp::f_lt(threshold, #[trigger] lambda@[j]) implies exists|t: int|
                0 <= t < out@.len() && out@[t] == j by {
                if j == i {
                    assert(out@[out@.len() - 1] == i);
                } else {
                    let t = choose|t: int| 0 <= t < pre.len() && pre[t] == j;
                    assert(out@[t] == j);
                }
            }
        }
        i += 1;
    }
    proof {
        assert(lambda@.subrange(0, lambda@.len() as int) =~= lambda@);
    }
    out
}

/// The pivots kept by the rank-revealing stage, as a function of the pivot
/// order and the diagonal ratios of the factorization: position `i` of the
/// factor keeps pivot `perm[i]` exactly when the magnitude of `ratios[i]`
/// reaches the tolerance.
pub open spec fn qr_kept(perm: Seq<usize>, ratios: Seq<u64>, lim: int, tolerance: u64) -> Seq<
    usize,
>
    decreases lim,
{
    if lim <= 0 {
        Seq::empty()
    } else {
        let rest = qr_kept(perm, ratios, lim - 1, tolerance);
        if fp::f_le(tolerance, fp::abs_of(ratios[lim - 1])) {
            rest.push(perm[lim - 1])
        } else {
            rest
        }
    }
}

/// Every kept pivot is one of the first `lim` pivots, so it respects any
/// bound the pivots respect.
pub proof fn lemma_qr_kept_range(
    perm: Seq<usize>,
    ratios: Seq<u64>,
    lim: int,
    tolerance: u64,
    bound: usize,
)
    requires
        lim <= perm.len(),
        forall|i: int| 0 <= i < lim ==> (#[trigger] perm[i]) < bound,
    ensures
        forall|t: int|
            0 <= t < qr_kept(perm, ratios, lim, tolerance).len() ==> (#[trigger] qr_kept(
                perm,
                ratios,
                lim,
                tolerance,
            )[t]) < bound,
    decreases lim,
{
    if lim > 0 {
        lemma_qr_kept_range(perm, ratios, lim - 1, tolerance, bound);
        let rest = qr_kept(perm, ratios, lim - 1, tolerance);
        let full = qr_kept(perm, ratios, lim, tolerance);
        assert forall|t: int| 0 <= t < full.len() implies (#[trigger] full[t]) < bound by {
            if t < rest.len() {
                assert(full[t] == rest[t]);
            } else {
                assert(full[t] == perm[lim - 1]);
            }
        }
    }
}

/// Computes the kept pivots: for each leading position of the factor, the
/// pivot whose diagonal ratio's magnitude reaches the tolerance.
pub fn qr_keep(perm: &Vec<usize>, ratios: &Vec<u64>, lim: usize, tolerance: u64) -> (r: Vec<
    usize,
>)
    requires
        lim <= perm@.len(),
        lim <= ratios@.len(),
    ensures
        r@ == qr_kept(perm@, ratios@, lim as int, tolerance),
{
    let mut out: Vec<usize> = Vec::new();
    let mut i: usize = 0;
    while i < lim
        invariant
            0 <= i <= lim,
            lim <= perm@.len(),
            lim <= ratios@.len(),
            out@ == qr_kept(perm@, ratios@, i as int, tolerance),
        decreases lim - i,
    {
        // The ratio passes when its magnitude reaches the tolerance; clearing
        // the sign bit is the IEEE-754 absolute value.
        let magnitude = ratios[i] & fp::ABS_MASK;
        if fp::le(tolerance, magnitude) {
            out.push(perm[i]);
        }
        i += 1;
    }
    out
}

} // verus!
