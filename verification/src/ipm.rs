//! The interior-point weight subproblem's interface: its error taxonomy and
//! the verified degeneracy check.
//!
//! The primal-dual iteration itself is floating-point linear algebra and runs
//! in the numeric host; its outputs come back through the driver. What is
//! decided here, exactly, is the degenerate input the subproblem must refuse:
//! a subject whose likelihood row is all zeros, under which the objective is
//! unbounded below and no weighting can help.

use crate::fp;
use crate::matrix::Matrix;
use vstd::prelude::*;

verus! {

/// Why the weight subproblem failed.
#[derive(Debug, PartialEq, Eq, Structural)]
pub enum IpmError {
    /// A subject's likelihood row is all zeros.
    ZeroRow { row: usize },
    /// The iteration limit was reached before the duality gap closed.
    NotConverged,
    /// The linear system of a step was singular.
    SingularSystem,
}

/// Row `i` of the likelihood matrix is all zeros (of either sign).
pub open spec fn row_all_zero(psi: &Matrix, i: int) -> bool {
    forall|j: int| 0 <= j < psi.ncols ==> fp::is_zero(#[trigger] psi.at(i, j))
}

/// Refuses a likelihood matrix with an all-zero row, naming the first such
/// subject; accepts exactly the matrices in which every subject retains some
/// likelihood mass.
pub fn validate_psi(psi: &Matrix) -> (r: Result<(), IpmError>)
    requires
        psi.wf(),
    ensures
        r is Ok <==> (forall|i: int| 0 <= i < psi.rows@.len() ==> !row_all_zero(psi, i)),
        match r {
            Ok(()) => true,
            Err(e) => match e {
                IpmError::ZeroRow { row } => row < psi.rows@.len() && row_all_zero(
                    psi,
                    row as int,
                ) && (forall|i: int| 0 <= i < row ==> !row_all_zero(psi, i)),
                _ => false,
            },
        },
{
    let nrows = psi.nrows();
    let ncols = psi.ncols();
    let mut i: usize = 0;
    while i < nrows
        invariant
            0 <= i <= psi.rows@.len(),
            nrows == psi.rows@.len(),
            ncols == psi.ncols,
            psi.wf(),
            forall|s: int| 0 <= s < i ==> !row_all_zero(psi, s),
        decreases psi.rows@.len() - i,
    {
        let mut j: usize = 0;
        let mut all_zero = true;
        while j < ncols
            invariant
                0 <= j <= psi.ncols,
                ncols == psi.ncols,
                i < psi.rows@.len(),
                psi.wf(),
                all_zero <==> (forall|t: int|
                    0 <= t < j ==> fp::is_zero(#[trigger] psi.at(i as int, t))),
            decreases psi.ncols - j,
        {
            let cell = psi.get(i, j);
            proof {
                assert(((cell & 0x7fff_ffff_ffff_ffff) == 0) <==> (((cell >> 52) & 0x7ff) == 0 && (
                cell & 0xf_ffff_ffff_ffff) == 0)) by (bit_vector);
            }
            if cell & fp::ABS_MASK != 0 {
                all_zero = false;
            }
            j += 1;
        }
        if all_zero {
            proof {
                assert(row_all_zero(psi, i as int));
            }
            return Err(IpmError::ZeroRow { row: i });
        }
        i += 1;
    }
    Ok(())
}

} // verus!
