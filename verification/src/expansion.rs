//! Adaptive grid expansion: axis-aligned neighbor candidates around each
//! support point, accepted only inside the parameter box and away from every
//! point already in the grid.
//!
//! The numeric host computes each moved coordinate (the base coordinate plus
//! or minus ε times the axis range) and the scaled L1 distances of a
//! candidate to the current points; this module makes the verified decisions:
//! the moved coordinate must sit strictly inside its axis range under
//! IEEE-754 ordering, and every distance must fail to compare at or below the
//! minimum-distance guard — exactly the engine's rejection test, under which
//! a NaN distance does not reject.

use crate::fp;
use crate::matrix::Matrix;
use vstd::prelude::*;

verus! {

/// The point lies in the closed box of per-parameter ranges.
pub open spec fn in_box(point: Seq<u64>, ranges: Seq<(u64, u64)>) -> bool {
    point.len() == ranges.len() && forall|k: int|
        0 <= k < point.len() ==> fp::f_le((#[trigger] ranges[k]).0, point[k]) && fp::f_le(
            point[k],
            ranges[k].1,
        )
}

/// Every row of the support matrix lies in the closed box.
pub open spec fn all_in_box(theta: &Matrix, ranges: Seq<(u64, u64)>) -> bool {
    forall|i: int| 0 <= i < theta.rows@.len() ==> in_box((#[trigger] theta.rows@[i])@, ranges)
}

/// Checks closed-box membership of a point.
pub fn point_in_box(point: &Vec<u64>, ranges: &Vec<(u64, u64)>) -> (r: bool)
    ensures
        r == in_box(point@, ranges@),
{
    if point.len() != ranges.len() {
        return false;
    }
    let mut k: usize = 0;
    while k < point.len()
        invariant
            0 <= k <= point@.len(),
            point@.len() == ranges@.len(),
            forall|j: int|
                0 <= j < k ==> fp::f_le((#[trigger] ranges@[j]).0, point@[j]) && fp::f_le(
                    point@[j],
                    ranges@[j].1,
                ),
        decreases point@.len() - k,
    {
        let (low, high) = ranges[k];
        let coordinate = point[k];
        if !fp::le(low, coordinate) || !fp::le(coordinate, high) {
            return false;
        }
        k += 1;
    }
    true
}

/// The candidate built from `point` by moving coordinate `axis` to `value`.
pub open spec fn moved(point: Seq<u64>, axis: int, value: u64) -> Seq<u64> {
    point.update(axis, value)
}

/// Whether a candidate clears the guard: no distance compares at or below
/// the minimum distance.
pub open spec fn clears_guard(dists: Seq<u64>, min_dist: u64) -> bool {
    forall|i: int| 0 <= i < dists.len() ==> !fp::f_le(#[trigger] dists[i], min_dist)
}

/// Considers one axis-aligned neighbor of a support point: `value` is the
/// moved coordinate the numeric host computed, and `dists` its scaled L1
/// distances to the current rows of Θ, in row order. The candidate is
/// appended exactly when the moved coordinate lies strictly inside its axis
/// range and no distance compares at or below the guard. An accepted
/// candidate lies in the closed box, so the box invariant of Θ is preserved.
pub fn try_extend(
    theta: &mut Matrix,
    ranges: &Vec<(u64, u64)>,
    point: &Vec<u64>,
    axis: usize,
    value: u64,
    dists: &Vec<u64>,
    min_dist: u64,
) -> (accepted: bool)
    requires
        old(theta).wf(),
        old(theta).ncols == ranges@.len(),
        point@.len() == ranges@.len(),
        axis < ranges@.len(),
        dists@.len() == old(theta).rows@.len(),
        in_box(point@, ranges@),
        all_in_box(old(theta), ranges@),
    ensures
        final(theta).wf(),
        final(theta).ncols == old(theta).ncols,
        accepted == (fp::f_lt(ranges@[axis as int].0, value) && fp::f_lt(
            value,
            ranges@[axis as int].1,
        ) && clears_guard(dists@, min_dist)),
        accepted ==> {
            &&& final(theta).rows@.len() == old(theta).rows@.len() + 1
            &&& (final(theta).rows@[old(theta).rows@.len() as int])@ == moved(
                point@,
                axis as int,
                value,
            )
            &&& forall|i: int|
                0 <= i < old(theta).rows@.len() ==> (#[trigger] final(theta).rows@[i])@ == (old(
                    theta,
                ).rows@[i])@
        },
        !accepted ==> final(theta).rows@ == old(theta).rows@,
        all_in_box(final(theta), ranges@),
{
    let (low, high) = ranges[axis];
    let in_range = fp::lt(low, value) && fp::lt(value, high);
    let mut clears: bool = true;
    let mut i: usize = 0;
    while i < dists.len()
        invariant
            0 <= i <= dists@.len(),
            clears <==> (forall|j: int| 0 <= j < i ==> !fp::f_le(#[trigger] dists@[j], min_dist)),
        decreases dists@.len() - i,
    {
        if fp::le(dists[i], min_dist) {
            clears = false;
        }
        i += 1;
    }
    if !in_range || !clears {
        return false;
    }
    // Build the candidate: the base point with one coordinate moved.
    let mut candidate: Vec<u64> = Vec::new();
    let mut k: usize = 0;
    while k < point.len()
        invariant
            0 <= k <= point@.len(),
            axis < point@.len(),
            theta.rows@ == old(theta).rows@,
            theta.ncols == old(theta).ncols,
            candidate@.len() == k,
            forall|j: int|
                0 <= j < k ==> #[trigger] candidate@[j] == (if j == axis {
                    value
                } else {
                    point@[j]
                }),
        decreases point@.len() - k,
    {
        if k == axis {
            candidate.push(value);
        } else {
            candidate.push(point[k]);
        }
        k += 1;
    }
    proof {
        assert(candidate@ =~= moved(point@, axis as int, value));
        // Strict bounds on the moved coordinate give closed-box membership.
        assert(in_box(candidate@, ranges@));
    }
    let ghost prior = theta.rows@;
    theta.push_row(candidate);
    proof {
        assert forall|i2: int| 0 <= i2 < theta.rows@.len() implies in_box(
            (#[trigger] theta.rows@[i2])@,
            ranges@,
        ) by {
            if i2 < prior.len() {
                assert(theta.rows@[i2] == prior[i2]);
            }
        }
    }
    true
}

} // verus!
