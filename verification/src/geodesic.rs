//! Geodesic distance and interpolation on the rotation manifold, built from
//! the matrix logarithm and exponential.

use vstd::prelude::*;
use crate::algebra::CMatrix;
use crate::expm::matrix_exp;
use crate::schur::{matrix_log, LogDiagnostics, LogStrategy};

verus! {

/// The geodesic distance ‖log(Rᵀ·T)‖_F between rotation-like matrices R and
/// T, as a complex value with zero imaginary part, under the chosen
/// logarithm strategy. Identical inputs give Rᵀ·T = I and a distance near
/// zero; the result is a Frobenius norm, hence non-negative whenever it is
/// finite.
pub fn geodesic_distance(
    r: &CMatrix,
    t: &CMatrix,
    strategy: LogStrategy,
) -> (out: (num_complex::Complex64, LogDiagnostics))
    requires
        r.wf(),
        t.wf(),
        r.dim() == t.dim(),
    ensures
        !(out.1.schur_failed && out.1.off_diagonal_excess),
        strategy matches LogStrategy::GeneralScalingSquaring ==>
            !out.1.schur_failed && !out.1.off_diagonal_excess,
        strategy matches LogStrategy::SchurQuasiTriangular ==> !out.1.off_diagonal_excess,
{
    let u = r.transpose().matmul(t);
    let (lg, diag) = matrix_log(&u, strategy);
    (lg.frobenius_norm(), diag)
}

/// The geodesic interpolation A·exp(t·log(Aᵀ·B)) between A (t = 0) and B
/// (t = 1), under the chosen logarithm strategy. The parameter is the real
/// part of `t_param` and is not clamped to [0, 1].
pub fn geodesic_interp(
    a: &CMatrix,
    b: &CMatrix,
    t_param: num_complex::Complex64,
    strategy: LogStrategy,
) -> (out: (CMatrix, LogDiagnostics))
    requires
        a.wf(),
        b.wf(),
        a.dim() == b.dim(),
    ensures
        out.0.wf(),
        out.0.dim() == a.dim(),
        !(out.1.schur_failed && out.1.off_diagonal_excess),
        strategy matches LogStrategy::GeneralScalingSquaring ==>
            !out.1.schur_failed && !out.1.off_diagonal_excess,
        strategy matches LogStrategy::SchurQuasiTriangular ==> !out.1.off_diagonal_excess,
{
    let rel = a.transpose().matmul(b);
    let (lg, diag) = matrix_log(&rel, strategy);
    let scaled = lg.scale(t_param);
    let r_interp = matrix_exp(&scaled);
    (a.matmul(&r_interp), diag)
}

} // verus!
