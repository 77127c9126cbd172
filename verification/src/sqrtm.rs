//! Matrix square root by the Denman–Beavers iteration.

use vstd::prelude::*;
use crate::algebra::CMatrix;
use crate::scalar::{c_ratio, c_re_lt};

verus! {

/// A complex square root of `m` by the Denman–Beavers fixed-point iteration:
/// Y₀ = M, Z₀ = I, then Yₖ₊₁ = ½(Yₖ + Zₖ⁻¹) and Zₖ₊₁ = ½(Zₖ + Yₖ⁻¹), for at
/// most 10 steps, stopping early once ‖Yₖ₊₁ − Yₖ‖_F < 1e-12. If an iterate
/// becomes singular the iteration aborts and `m` itself is returned
/// unchanged, a conservative fallback; callers needing a true square root
/// must check the residual themselves.
#[verifier::loop_isolation(false)]
pub fn sqrt_denman_beavers(m: &CMatrix) -> (r: CMatrix)
    requires
        m.wf(),
    ensures
        r.wf(),
        r.dim() == m.dim(),
{
    let half = c_ratio(1, 2);
    let tol = c_ratio(1, 1_000_000_000_000);
    let mut y = m.duplicate();
    let mut z = m.identity_like();
    let mut it: u32 = 0;
    while it < 10
        invariant
            y.wf(),
            y.dim() == m.dim(),
            z.wf(),
            z.dim() == m.dim(),
            it <= 10,
        decreases 10 - it,
    {
        let y_inv = match y.try_inverse() {
            Some(v) => v,
            None => {
                return m.duplicate();
            },
        };
        let z_inv = match z.try_inverse() {
            Some(v) => v,
            None => {
                return m.duplicate();
            },
        };
        let y_next = y.add_mat(&z_inv).scale(half);
        let z_next = z.add_mat(&y_inv).scale(half);
        let step = y_next.sub_mat(&y).frobenius_norm();
        y = y_next;
        z = z_next;
        if c_re_lt(&step, &tol) {
            return y;
        }
        it = it + 1;
    }
    y
}

} // verus!
