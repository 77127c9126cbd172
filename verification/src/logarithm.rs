//! General-purpose matrix logarithm: truncated series near the identity,
//! driven by inverse scaling-and-squaring.

use vstd::prelude::*;
use crate::algebra::CMatrix;
use crate::scalar::{c_div_re, c_from_i64, c_from_u64, c_ratio, c_re_lt};
use crate::sqrtm::sqrt_denman_beavers;

verus! {

/// log(A) for A close to the identity, by the truncated power series
/// log(I+X) = X − X²/2 + X³/3 − …, X = A − I, up to term index 20, stopping
/// early once the added term's Frobenius norm drops below 1e-15. No
/// convergence is promised when A is far from the identity; the
/// scaling-and-squaring driver is responsible for getting it close.
#[verifier::loop_isolation(false)]
pub fn log_near_identity(a: &CMatrix) -> (r: CMatrix)
    requires
        a.wf(),
    ensures
        r.wf(),
        r.dim() == a.dim(),
{
    let tol = c_ratio(1, 1_000_000_000_000_000);
    let x = a.sub_mat(&a.identity_like());
    let mut acc = a.zeros_like();
    let mut power = x.duplicate();
    let mut j: u64 = 1;
    while j <= 20
        invariant
            acc.wf(),
            acc.dim() == a.dim(),
            power.wf(),
            power.dim() == a.dim(),
            1 <= j <= 21,
        decreases 21 - j,
    {
        let sign: i64 = if j % 2 == 1 { 1 } else { -1 };
        let coeff = c_div_re(c_from_i64(sign), c_from_u64(j));
        let term = power.scale(coeff);
        acc = acc.add_mat(&term);
        let term_norm = term.frobenius_norm();
        if c_re_lt(&term_norm, &tol) {
            return acc;
        }
        power = power.matmul(&x);
        j = j + 1;
    }
    acc
}

/// log(M) by inverse scaling-and-squaring: take Denman–Beavers square roots
/// until ‖A − I‖_F < 0.5 (at most 20 of them), apply the near-identity
/// series, and undo the roots by the factor 2ᵏ, since log(A^(2ᵏ)) = 2ᵏ·log(A)
/// along the square-root chain. The default logarithm for any square matrix.
#[verifier::loop_isolation(false)]
pub fn matrix_log_general(m: &CMatrix) -> (r: CMatrix)
    requires
        m.wf(),
    ensures
        r.wf(),
        r.dim() == m.dim(),
{
    let half = c_ratio(1, 2);
    let mut a = m.duplicate();
    let mut k: u32 = 0;
    let mut near = {
        let gap = a.sub_mat(&m.identity_like()).frobenius_norm();
        c_re_lt(&gap, &half)
    };
    while !near && k < 20
        invariant
            a.wf(),
            a.dim() == m.dim(),
            k <= 20,
        decreases 20 - k,
    {
        a = sqrt_denman_beavers(&a);
        k = k + 1;
        let gap = a.sub_mat(&m.identity_like()).frobenius_norm();
        near = c_re_lt(&gap, &half);
    }
    let base = log_near_identity(&a);
    base.scale(c_from_u64(1u64 << k))
}

} // verus!
