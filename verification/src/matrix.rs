//! Rectangular matrices of IEEE-754 bit patterns.
//!
//! Θ (support points × parameters) and Ψ (subjects × support points) are both
//! held in this row-major form. The engine never does floating-point
//! arithmetic on the cells; what it needs — and what is verified here — is
//! the index bookkeeping: building, reading, and the row/column selections
//! that condensation performs.

use vstd::prelude::*;

verus! {

/// A copy of a vector of scalars.
pub fn copy_vec(v: &Vec<u64>) -> (r: Vec<u64>)
    ensures
        r@ == v@,
{
    let mut out: Vec<u64> = Vec::new();
    let mut j: usize = 0;
    while j < v.len()
        invariant
            0 <= j <= v@.len(),
            out@ == v@.subrange(0, j as int),
        decreases v@.len() - j,
    {
        out.push(v[j]);
        j += 1;
    }
    proof {
        assert(v@.subrange(0, v@.len() as int) =~= v@);
    }
    out
}

/// A row-major rectangular matrix of `u64` cells.
pub struct Matrix {
    pub rows: Vec<Vec<u64>>,
    pub ncols: usize,
}

impl Matrix {
    /// Every row has exactly `ncols` cells.
    pub open spec fn wf(&self) -> bool {
        forall|i: int| 0 <= i < self.rows@.len() ==> (#[trigger] self.rows@[i])@.len()
            == self.ncols
    }

    /// Cell at row `i`, column `j`.
    pub open spec fn at(&self, i: int, j: int) -> u64 {
        self.rows@[i]@[j]
    }

    /// An empty matrix with a fixed column count.
    pub fn empty(ncols: usize) -> (r: Matrix)
        ensures
            r.wf(),
            r.ncols == ncols,
            r.rows@.len() == 0,
    {
        Matrix { rows: Vec::new(), ncols }
    }

    /// Builds a matrix from rows, refusing ragged input.
    pub fn from_rows(rows: Vec<Vec<u64>>, ncols: usize) -> (r: Option<Matrix>)
        ensures
            match r {
                Some(m) => {
                    &&& m.wf()
                    &&& m.ncols == ncols
                    &&& m.rows@ == rows@
                    &&& forall|i: int|
                        0 <= i < rows@.len() ==> (#[trigger] rows@[i])@.len() == ncols
                },
                None => exists|i: int|
                    0 <= i < rows@.len() && (#[trigger] rows@[i])@.len() != ncols,
            },
    {
        let mut i: usize = 0;
        while i < rows.len()
            invariant
                0 <= i <= rows@.len(),
                forall|t: int| 0 <= t < i ==> (#[trigger] rows@[t])@.len() == ncols,
            decreases rows@.len() - i,
        {
            if rows[i].len() != ncols {
                return None;
            }
            i += 1;
        }
        Some(Matrix { rows, ncols })
    }

    pub fn nrows(&self) -> (r: usize)
        ensures
            r == self.rows@.len(),
    {
        self.rows.len()
    }

    pub fn ncols(&self) -> (r: usize)
        ensures
            r == self.ncols,
    {
        self.ncols
    }

    pub fn get(&self, i: usize, j: usize) -> (r: u64)
        requires
            self.wf(),
            i < self.rows@.len(),
            j < self.ncols,
        ensures
            r == self.at(i as int, j as int),
    {
        self.rows[i][j]
    }

    /// A copy of row `i` as a plain vector.
    pub fn row(&self, i: usize) -> (r: Vec<u64>)
        requires
            self.wf(),
            i < self.rows@.len(),
        ensures
            r@ == self.rows@[i as int]@,
    {
        let source = &self.rows[i];
        let mut out: Vec<u64> = Vec::new();
        let mut j: usize = 0;
        while j < source.len()
            invariant
                0 <= j <= source@.len(),
                out@ == source@.subrange(0, j as int),
            decreases source@.len() - j,
        {
            out.push(source[j]);
            j += 1;
        }
        proof {
            assert(source@.subrange(0, source@.len() as int) =~= source@);
        }
        out
    }

    /// Appends a row of the right width.
    pub fn push_row(&mut self, row: Vec<u64>)
        requires
            old(self).wf(),
            row@.len() == old(self).ncols,
        ensures
            final(self).wf(),
            final(self).ncols == old(self).ncols,
            final(self).rows@ == old(self).rows@.push(row),
    {
        self.rows.push(row);
    }

    /// Cell-for-cell equality of two matrices.
    pub open spec fn same_cells(&self, other: &Matrix) -> bool {
        &&& self.ncols == other.ncols
        &&& self.rows@.len() == other.rows@.len()
        &&& forall|i: int|
            0 <= i < self.rows@.len() ==> (#[trigger] self.rows@[i])@ == other.rows@[i]@
    }

    /// A cell-for-cell copy.
    pub fn copy_of(&self) -> (r: Matrix)
        requires
            self.wf(),
        ensures
            r.wf(),
            r.same_cells(self),
    {
        let mut out: Vec<Vec<u64>> = Vec::new();
        let mut i: usize = 0;
        while i < self.rows.len()
            invariant
                0 <= i <= self.rows@.len(),
                out@.len() == i,
                self.wf(),
                forall|s: int| 0 <= s < i ==> (#[trigger] out@[s])@ == self.rows@[s]@,
            decreases self.rows@.len() - i,
        {
            let row = self.row(i);
            out.push(row);
            i += 1;
        }
        Matrix { rows: out, ncols: self.ncols }
    }

    /// Keeps the rows listed in `keep`, in that order.
    pub fn select_rows(&self, keep: &Vec<usize>) -> (r: Matrix)
        requires
            self.wf(),
            forall|t: int| 0 <= t < keep@.len() ==> (#[trigger] keep@[t]) < self.rows@.len(),
        ensures
            r.wf(),
            r.ncols == self.ncols,
            r.rows@.len() == keep@.len(),
            forall|t: int|
                0 <= t < keep@.len() ==> (#[trigger] r.rows@[t])@ == self.rows@[keep@[t] as int]@,
    {
        let mut out: Vec<Vec<u64>> = Vec::new();
        let mut t: usize = 0;
        while t < keep.len()
            invariant
                0 <= t <= keep@.len(),
                out@.len() == t,
                self.wf(),
                forall|s: int| 0 <= s < keep@.len() ==> (#[trigger] keep@[s]) < self.rows@.len(),
                forall|s: int|
                    0 <= s < t ==> (#[trigger] out@[s])@ == self.rows@[keep@[s] as int]@,
            decreases keep@.len() - t,
        {
            let row = self.row(keep[t]);
            out.push(row);
            t += 1;
        }
        Matrix { rows: out, ncols: self.ncols }
    }

    /// Keeps the columns listed in `keep`, in that order.
    pub fn select_cols(&self, keep: &Vec<usize>) -> (r: Matrix)
        requires
            self.wf(),
            forall|t: int| 0 <= t < keep@.len() ==> (#[trigger] keep@[t]) < self.ncols,
        ensures
            r.wf(),
            r.ncols == keep@.len(),
            r.rows@.len() == self.rows@.len(),
            forall|i: int, t: int|
                0 <= i < self.rows@.len() && 0 <= t < keep@.len() ==> #[trigger] r.at(i, t)
                    == self.at(i, keep@[t] as int),
    {
        let mut out: Vec<Vec<u64>> = Vec::new();
        let mut i: usize = 0;
        while i < self.rows.len()
            invariant
                0 <= i <= self.rows@.len(),
                out@.len() == i,
                self.wf(),
                forall|s: int| 0 <= s < keep@.len() ==> (#[trigger] keep@[s]) < self.ncols,
                forall|s: int| 0 <= s < i ==> (#[trigger] out@[s])@.len() == keep@.len(),
                forall|s: int, t: int|
                    0 <= s < i && 0 <= t < keep@.len() ==> #[trigger] out@[s]@[t] == self.at(
                        s,
                        keep@[t] as int,
                    ),
            decreases self.rows@.len() - i,
        {
            let mut row: Vec<u64> = Vec::new();
            let mut t: usize = 0;
            while t < keep.len()
                invariant
                    0 <= t <= keep@.len(),
                    row@.len() == t,
                    i < self.rows@.len(),
                    self.wf(),
                    forall|s: int| 0 <= s < keep@.len() ==> (#[trigger] keep@[s]) < self.ncols,
                    forall|s: int|
                        0 <= s < t ==> (#[trigger] row@[s]) == self.at(i as int, keep@[s] as int),
                decreases keep@.len() - t,
            {
                row.push(self.get(i, keep[t]));
                t += 1;
            }
            out.push(row);
            i += 1;
        }
        Matrix { rows: out, ncols: keep.len() }
    }
}

} // verus!
