//! Schur-decomposition-based matrix logarithm, specialized for orthogonal
//! (or at least normal) matrices, with a fallback to the general
//! scaling-and-squaring logarithm when the decomposition does not converge.

use vstd::prelude::*;
use crate::algebra::CMatrix;
use crate::logarithm::matrix_log_general;
use crate::scalar::{
    c_abs, c_add, c_combine, c_div, c_div_re, c_from_i64, c_from_u64, c_im, c_is_zero, c_ln,
    c_mul, c_ratio, c_re, c_re_lt, c_sqrt, c_sub, c_zero,
};

verus! {

/// Relies on nalgebra's `DMatrix::from_row_slice`, `Matrix::try_schur` and
/// `Schur::unpack`: for the n-by-n complex matrix with the given row-major
/// entries, a Schur decomposition M = Q·T·Q^H with T upper triangular,
/// computed to tolerance `eps` (its real part) within `max_iter` iterations;
/// `None` when the iteration does not converge. Both factors come back as
/// n·n row-major entry arrays. A zero iteration cap is excluded: nalgebra
/// reads `max_niter == 0` as no cap at all, and the call might then never
/// return on a non-converging input.
#[verifier::external_body]
fn schur_decompose(
    data: &Vec<num_complex::Complex64>,
    n: usize,
    eps: num_complex::Complex64,
    max_iter: usize,
) -> (r: Option<(Vec<num_complex::Complex64>, Vec<num_complex::Complex64>)>)
    requires
        data@.len() == n * n,
        max_iter >= 1,
    ensures
        r matches Some(qt) ==> qt.0@.len() == n * n && qt.1@.len() == n * n,
{
    let m = nalgebra::DMatrix::from_row_slice(n, n, data.as_slice());
    match m.try_schur(eps.re, max_iter) {
        None => None,
        Some(s) => {
            let (q, t) = s.unpack();
            Some((q.transpose().as_slice().to_vec(), t.transpose().as_slice().to_vec()))
        },
    }
}

/// What a logarithm call observed along the way; returned in place of a
/// diagnostic side channel.
#[derive(Clone, Copy, Debug)]
pub struct LogDiagnostics {
    /// The Schur decomposition did not converge and the general
    /// scaling-and-squaring logarithm was used instead.
    pub schur_failed: bool,
    /// The Schur form was not diagonal to within 1e-6, so the input likely
    /// deviated from orthogonality (diagonal-Schur strategy only).
    pub off_diagonal_excess: bool,
    /// The largest off-diagonal magnitude of the Schur factor T, as a
    /// complex value with zero imaginary part; zero when nothing measured
    /// it (the general path, the quasi-triangular strategy, and fallbacks).
    pub max_off_diagonal: num_complex::Complex64,
}

/// The selectable logarithm strategies.
#[derive(Clone, Copy, Debug)]
pub enum LogStrategy {
    /// Inverse scaling-and-squaring with the series; works for any square
    /// matrix producing a convergent square-root chain.
    GeneralScalingSquaring,
    /// Schur form treated as quasi-triangular: 2-by-2 diagonal blocks get
    /// closed-form logarithms, remaining off-diagonal entries a first-order
    /// divided-difference approximation.
    SchurQuasiTriangular,
    /// Schur form treated as exactly diagonal; cheapest and most accurate
    /// when the input is exactly orthogonal/unitary.
    SchurDiagonal,
}

/// The principal logarithm of one eigenvalue: ln|λ| + i·arg(λ) for λ ≠ 0
/// (so a negative real λ gets ln|λ| + iπ), and the finite substitute
/// −1e10 + 0i for λ = 0, keeping the logarithm matrix finite.
fn log_eigenvalue(lam: num_complex::Complex64) -> num_complex::Complex64 {
    if c_is_zero(&lam) {
        c_from_i64(-10_000_000_000)
    } else {
        c_ln(lam)
    }
}

/// log(M) for an orthogonal M via its complex Schur form treated as exactly
/// diagonal: log each diagonal eigenvalue, reconstruct Q·log(T)·Q^H. When the
/// largest off-diagonal magnitude of T exceeds 1e-6 the input was likely not
/// orthogonal, and the diagnostics say so; when the decomposition does not
/// converge the general logarithm is used and the diagnostics say so.
#[verifier::loop_isolation(false)]
pub fn matrix_log_orthogonal(m: &CMatrix) -> (r: (CMatrix, LogDiagnostics))
    requires
        m.wf(),
    ensures
        r.0.wf(),
        r.0.dim() == m.dim(),
        !(r.1.schur_failed && r.1.off_diagonal_excess),
{
    let n = m.dims();
    let eps = c_ratio(1, 1_000_000_000_000);
    match schur_decompose(m.entries_ref(), n, eps, 500) {
        None => {
            let g = matrix_log_general(m);
            (g, LogDiagnostics {
                schur_failed: true,
                off_diagonal_excess: false,
                max_off_diagonal: c_zero(),
            })
        },
        Some((qv, tv)) => {
            let q = CMatrix::from_vec_exact(n, qv);
            let t = CMatrix::from_vec_exact(n, tv);

            let mut max_off = c_zero();
            let mut i: usize = 0;
            while i < n
                invariant
                    i <= n,
                decreases n - i,
            {
                let mut j: usize = 0;
                while j < n
                    invariant
                        j <= n,
                        i < n,
                    decreases n - j,
                {
                    if i != j {
                        let v = c_abs(&t.get(i, j));
                        if c_re_lt(&max_off, &v) {
                            max_off = v;
                        }
                    }
                    j = j + 1;
                }
                i = i + 1;
            }
            let warn_tol = c_ratio(1, 1_000_000);
            let warn = c_re_lt(&warn_tol, &max_off);

            let mut log_t = m.zeros_like();
            let mut d: usize = 0;
            while d < n
                invariant
                    d <= n,
                    log_t.wf(),
                    log_t.dim() == n,
                decreases n - d,
            {
                log_t.set_entry(d, d, log_eigenvalue(t.get(d, d)));
                d = d + 1;
            }

            let qh = q.conj_transpose();
            let res = q.matmul(&log_t).matmul(&qh);
            (res, LogDiagnostics {
                schur_failed: false,
                off_diagonal_excess: warn,
                max_off_diagonal: max_off,
            })
        },
    }
}

/// log(M) via the Schur form treated as quasi-triangular. A 2-by-2 diagonal
/// block (detected by a sub-diagonal magnitude above 1e-10) is classified by
/// the discriminant of its characteristic polynomial: a complex-conjugate
/// pair λ = x ± iy gets the rotation-scaling block [[ln r, −θ], [θ, ln r]]
/// with r = |λ| and θ = atan2(y, x); two real eigenvalues get their principal
/// logarithms on the diagonal. Off-diagonal entries of log(T) outside the
/// blocks get the first-order divided difference T(i,j)/(log T(i,i) −
/// log T(j,j)), skipped when an endpoint lies in a block or the denominator's
/// magnitude is below 1e-10 — adequate near orthogonality, not the full
/// recurrence for general triangular matrices. Reconstructs Q·log(T)·Q^H;
/// falls back to the general logarithm when the decomposition fails.
#[verifier::loop_isolation(false)]
pub fn matrix_log_quasi_triangular(m: &CMatrix) -> (r: (CMatrix, LogDiagnostics))
    requires
        m.wf(),
    ensures
        r.0.wf(),
        r.0.dim() == m.dim(),
        !r.1.off_diagonal_excess,
{
    let n = m.dims();
    let eps = c_ratio(1, 1_000_000_000_000);
    match schur_decompose(m.entries_ref(), n, eps, 500) {
        None => {
            let g = matrix_log_general(m);
            (g, LogDiagnostics {
                schur_failed: true,
                off_diagonal_excess: false,
                max_off_diagonal: c_zero(),
            })
        },
        Some((qv, tv)) => {
            let q = CMatrix::from_vec_exact(n, qv);
            let t = CMatrix::from_vec_exact(n, tv);

            let zero = c_zero();
            let two = c_from_u64(2);
            let four = c_from_u64(4);
            let tol_small = c_ratio(1, 10_000_000_000);

            let mut log_t = m.zeros_like();
            let mut in_block: Vec<bool> = Vec::new();
            let mut f: usize = 0;
            while f < n
                invariant
                    f <= n,
                    in_block@.len() == f,
                decreases n - f,
            {
                in_block.push(false);
                f = f + 1;
            }

            let mut i: usize = 0;
            while i < n
                invariant
                    i <= n,
                    log_t.wf(),
                    log_t.dim() == n,
                    in_block@.len() == n,
                decreases n - i,
            {
                let mut sub_mag = zero;
                if i + 1 < n {
                    sub_mag = c_abs(&t.get(i + 1, i));
                }
                if i + 1 < n && c_re_lt(&tol_small, &sub_mag) {
                    let ba = t.get(i, i);
                    let bb = t.get(i, i + 1);
                    let bc = t.get(i + 1, i);
                    let bd = t.get(i + 1, i + 1);
                    let tr = c_add(ba, bd);
                    let det = c_sub(c_mul(ba, bd), c_mul(bb, bc));
                    let disc = c_sub(c_mul(tr, tr), c_mul(four, det));
                    if c_re_lt(&disc, &zero) {
                        let re_part = c_div_re(tr, two);
                        let imag_mag = c_div_re(c_sqrt(c_sub(zero, disc)), two);
                        let lam = c_combine(re_part, imag_mag);
                        let log_lam = c_ln(lam);
                        let ln_r = c_re(log_lam);
                        let theta = c_im(log_lam);
                        log_t.set_entry(i, i, ln_r);
                        log_t.set_entry(i, i + 1, c_sub(zero, theta));
                        log_t.set_entry(i + 1, i, theta);
                        log_t.set_entry(i + 1, i + 1, ln_r);
                    } else {
                        let sq = c_sqrt(disc);
                        let lam1 = c_div_re(c_add(tr, sq), two);
                        let lam2 = c_div_re(c_sub(tr, sq), two);
                        log_t.set_entry(i, i, log_eigenvalue(lam1));
                        log_t.set_entry(i + 1, i + 1, log_eigenvalue(lam2));
                    }
                    in_block.set(i, true);
                    in_block.set(i + 1, true);
                    i = i + 2;
                } else {
                    log_t.set_entry(i, i, log_eigenvalue(t.get(i, i)));
                    i = i + 1;
                }
            }

            let mut col: usize = 0;
            while col < n
                invariant
                    col <= n,
                    log_t.wf(),
                    log_t.dim() == n,
                    in_block@.len() == n,
                decreases n - col,
            {
                let mut row: usize = 0;
                while row < col
                    invariant
                        row <= col,
                        col < n,
                        log_t.wf(),
                        log_t.dim() == n,
                        in_block@.len() == n,
                    decreases col - row,
                {
                    if !in_block[row] && !in_block[col] {
                        let denom = c_sub(log_t.get(row, row), log_t.get(col, col));
                        let denom_mag = c_abs(&denom);
                        if !c_re_lt(&denom_mag, &tol_small) {
                            log_t.set_entry(row, col, c_div(t.get(row, col), denom));
                        }
                    }
                    row = row + 1;
                }
                col = col + 1;
            }

            let qh = q.conj_transpose();
            let res = q.matmul(&log_t).matmul(&qh);
            (res, LogDiagnostics {
                schur_failed: false,
                off_diagonal_excess: false,
                max_off_diagonal: c_zero(),
            })
        },
    }
}

/// log(M) under the chosen strategy; the diagnostics say whether a fallback
/// or a non-orthogonality warning occurred.
pub fn matrix_log(m: &CMatrix, strategy: LogStrategy) -> (r: (CMatrix, LogDiagnostics))
    requires
        m.wf(),
    ensures
        r.0.wf(),
        r.0.dim() == m.dim(),
        !(r.1.schur_failed && r.1.off_diagonal_excess),
        strategy matches LogStrategy::GeneralScalingSquaring ==>
            !r.1.schur_failed && !r.1.off_diagonal_excess,
        strategy matches LogStrategy::SchurQuasiTriangular ==> !r.1.off_diagonal_excess,
{
    match strategy {
        LogStrategy::GeneralScalingSquaring => {
            let g = matrix_log_general(m);
            (g, LogDiagnostics {
                schur_failed: false,
                off_diagonal_excess: false,
                max_off_diagonal: c_zero(),
            })
        },
        LogStrategy::SchurQuasiTriangular => matrix_log_quasi_triangular(m),
        LogStrategy::SchurDiagonal => matrix_log_orthogonal(m),
    }
}

} // verus!
