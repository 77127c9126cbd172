//! Matrix exponential by scaling-and-squaring.

use vstd::prelude::*;
use crate::algebra::CMatrix;
use crate::scalar::{c_mul, c_one, c_ratio, c_re_lt};

verus! {

/// The fixed-order-6 truncated series I + A + A²/2 + A³/6 + A⁴/24 + A⁵/120 +
/// A⁶/720, intended for matrices already scaled to small norm. A plain
/// truncation, not a rational approximant with a denominator solve; the
/// scaling step keeps its argument small enough for this to be adequate.
pub fn pade_exp(a: &CMatrix) -> (r: CMatrix)
    requires
        a.wf(),
    ensures
        r.wf(),
        r.dim() == a.dim(),
{
    let idm = a.identity_like();

    let a2 = a.matmul(a);
    let a3 = a2.matmul(a);
    let a4 = a2.matmul(&a2);
    let a5 = a4.matmul(a);
    let a6 = a3.matmul(&a3);

    let c1 = c_one();
    let c2 = c_ratio(1, 2);
    let c3 = c_ratio(1, 6);
    let c4 = c_ratio(1, 24);
    let c5 = c_ratio(1, 120);
    let c6 = c_ratio(1, 720);

    idm.add_mat(&a.scale(c1))
        .add_mat(&a2.scale(c2))
        .add_mat(&a3.scale(c3))
        .add_mat(&a4.scale(c4))
        .add_mat(&a5.scale(c5))
        .add_mat(&a6.scale(c6))
}

/// exp(M) by scaling-and-squaring: halve the matrix k times, where k is the
/// smallest count that brings the Frobenius norm to at most 0.5 (the cap on k
/// is unreachable for finite norms and only bounds the loop when the norm is
/// not finite), apply the order-6 approximation, then square k times.
#[verifier::loop_isolation(false)]
pub fn matrix_exp(m: &CMatrix) -> (r: CMatrix)
    requires
        m.wf(),
    ensures
        r.wf(),
        r.dim() == m.dim(),
{
    let half = c_ratio(1, 2);
    let mut norm = m.frobenius_norm();
    let mut k: u32 = 0;
    while c_re_lt(&half, &norm) && k < 1100
        invariant
            k <= 1100,
        decreases 1100 - k,
    {
        norm = c_mul(norm, half);
        k = k + 1;
    }
    let mut a = m.duplicate();
    let mut s: u32 = 0;
    while s < k
        invariant
            s <= k,
            a.wf(),
            a.dim() == m.dim(),
        decreases k - s,
    {
        a = a.scale(half);
        s = s + 1;
    }
    let mut r = pade_exp(&a);
    let mut q: u32 = 0;
    while q < k
        invariant
            q <= k,
            r.wf(),
            r.dim() == m.dim(),
        decreases k - q,
    {
        r = r.matmul(&r);
        q = q + 1;
    }
    r
}

} // verus!
