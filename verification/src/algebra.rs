//! Dense square complex matrices.
//!
//! A `CMatrix` is an n-by-n matrix of `num_complex::Complex64` entries held
//! row-major in a flat vector. The verifier tracks the shape exactly: every
//! operation states the dimension of its result, in-bounds indexing is
//! proved, and the purely structural operations (construction, access,
//! transposition) state entry-for-entry where each value goes. The
//! floating-point content of the entries is opaque; see `scalar`.

use vstd::prelude::*;
use crate::scalar::{c_add, c_conj, c_mul, c_norm_sqr, c_sqrt, c_zero, c_one};

verus! {

/// The row-major position of entry (i, j) of an n-by-n matrix.
pub open spec fn rm(n: int, i: int, j: int) -> int {
    i * n + j
}

/// The row-major position of entry (i, j) of an n-by-n matrix lies within
/// the n·n entry array.
pub proof fn lemma_rm_index(n: nat, i: nat, j: nat)
    requires
        i < n,
        j < n,
    ensures
        i * n + j < n * n,
        n * n >= n,
{
    assert(i * n + j < n * n && n * n >= n) by (nonlinear_arith)
        requires i < n && j < n;
}

/// Positions of rows strictly below row i lie before position i·n.
pub proof fn lemma_rm_below(n: int, r0: int, c0: int, i: int)
    requires
        0 <= r0 < i,
        0 <= c0 < n,
    ensures
        0 <= rm(n, r0, c0) < i * n,
{
    assert(0 <= r0 * n + c0 < i * n) by (nonlinear_arith)
        requires 0 <= r0 < i && 0 <= c0 < n;
}

/// Distinct entry positions have distinct row-major positions.
pub proof fn lemma_rm_injective(n: int, i: int, j: int, r0: int, c0: int)
    requires
        0 <= i < n,
        0 <= j < n,
        0 <= r0 < n,
        0 <= c0 < n,
        rm(n, i, j) == rm(n, r0, c0),
    ensures
        i == r0 && j == c0,
{
    assert(i == r0 && j == c0) by (nonlinear_arith)
        requires
            0 <= i < n && 0 <= j < n && 0 <= r0 < n && 0 <= c0 < n && i * n + j == r0 * n + c0;
}

/// One more full row advances the fill position by n.
pub proof fn lemma_row_step(n: int, i: int)
    ensures
        (i + 1) * n == i * n + n,
{
    assert((i + 1) * n == i * n + n) by (nonlinear_arith);
}

pub struct CMatrix {
    n: usize,
    data: Vec<num_complex::Complex64>,
}

impl CMatrix {
    /// The dimension n of this n-by-n matrix.
    pub closed spec fn dim(&self) -> nat {
        self.n as nat
    }

    /// The entries, row-major: entry (i, j) sits at position i·n + j.
    pub closed spec fn entries(&self) -> Seq<num_complex::Complex64> {
        self.data@
    }

    /// Well-formed: the entry array has exactly n·n elements.
    pub open spec fn wf(&self) -> bool {
        self.entries().len() == self.dim() * self.dim()
    }

    /// Entry (i, j), for 0 <= i, j < dim.
    pub open spec fn entry(&self, i: int, j: int) -> num_complex::Complex64 {
        self.entries()[rm(self.dim() as int, i, j)]
    }

    /// The dimension, as an executable value.
    pub fn dims(&self) -> (r: usize)
        ensures
            r as nat == self.dim(),
    {
        self.n
    }

    /// Builds an n-by-n matrix from row-major entries. Returns `None` exactly
    /// when the number of entries is not n·n.
    pub fn from_vec(n: usize, data: Vec<num_complex::Complex64>) -> (r: Option<CMatrix>)
        ensures
            (r is Some) <==> data@.len() == n * n,
            r matches Some(m) ==> m.wf() && m.dim() == n && m.entries() == data@,
    {
        let len = data.len();
        match n.checked_mul(n) {
            Some(sq) => {
                if len == sq {
                    Some(CMatrix { n, data })
                } else {
                    None
                }
            },
            None => {
                proof {
                    assert(len <= usize::MAX < n * n);
                }
                None
            },
        }
    }

    /// Entry (i, j) as an executable value.
    pub fn get(&self, i: usize, j: usize) -> (r: num_complex::Complex64)
        requires
            self.wf(),
            i < self.dim(),
            j < self.dim(),
        ensures
            r == self.entry(i as int, j as int),
    {
        let len = self.data.len();
        proof {
            lemma_rm_index(self.dim(), i as nat, j as nat);
            assert(i * self.dim() + j < len);
        }
        let idx = i * self.n + j;
        self.data[idx]
    }

    /// Hands out the row-major entry array.
    pub fn into_entries(self) -> (r: Vec<num_complex::Complex64>)
        ensures
            r@ == self.entries(),
    {
        self.data
    }

    /// Borrows the row-major entry array.
    pub(crate) fn entries_ref(&self) -> (r: &Vec<num_complex::Complex64>)
        ensures
            r@ == self.entries(),
    {
        &self.data
    }

    /// Builds an n-by-n matrix from entries already known to number n·n.
    pub(crate) fn from_vec_exact(n: usize, data: Vec<num_complex::Complex64>) -> (r: CMatrix)
        requires
            data@.len() == n * n,
        ensures
            r.wf(),
            r.dim() == n,
            r.entries() == data@,
    {
        CMatrix { n, data }
    }

    /// The number of entries, n·n, as an executable value.
    pub(crate) fn entry_count(&self) -> (r: usize)
        requires
            self.wf(),
        ensures
            r == self.dim() * self.dim(),
    {
        self.data.len()
    }

    /// An n-by-n matrix with every entry equal to `v`.
    #[verifier::loop_isolation(false)]
    pub fn filled(n: usize, v: num_complex::Complex64) -> (r: CMatrix)
        requires
            n * n <= usize::MAX,
        ensures
            r.wf(),
            r.dim() == n,
            forall|i: int, j: int| 0 <= i < n && 0 <= j < n ==> r.entry(i, j) == v,
    {
        let total = n * n;
        let mut data: Vec<num_complex::Complex64> = Vec::new();
        let mut k: usize = 0;
        while k < total
            invariant
                k <= total,
                data@.len() == k,
                forall|t: int| 0 <= t < k ==> data@[t] == v,
            decreases total - k,
        {
            data.push(v);
            k = k + 1;
        }
        let r = CMatrix { n, data };
        proof {
            assert forall|i: int, j: int| 0 <= i < n && 0 <= j < n implies #[trigger] r.entry(i, j) == v by {
                lemma_rm_index(n as nat, i as nat, j as nat);
            }
        }
        r
    }

    /// An n-by-n matrix with `dg` on the diagonal and `off` elsewhere.
    #[verifier::loop_isolation(false)]
    pub fn diag_from(n: usize, off: num_complex::Complex64, dg: num_complex::Complex64) -> (r: CMatrix)
        requires
            n * n <= usize::MAX,
        ensures
            r.wf(),
            r.dim() == n,
            forall|i: int, j: int| 0 <= i < n && 0 <= j < n ==>
                r.entry(i, j) == (if i == j { dg } else { off }),
    {
        let mut data: Vec<num_complex::Complex64> = Vec::new();
        let mut i: usize = 0;
        while i < n
            invariant
                i <= n,
                data@.len() == i * n,
                forall|r0: int, c0: int| 0 <= r0 < i && 0 <= c0 < n ==>
                    data@[#[trigger] rm(n as int, r0, c0)] == (if r0 == c0 { dg } else { off }),
            decreases n - i,
        {
            let mut j: usize = 0;
            while j < n
                invariant
                    j <= n,
                    i < n,
                    data@.len() == i * n + j,
                    forall|r0: int, c0: int| 0 <= r0 < i && 0 <= c0 < n ==>
                        data@[#[trigger] rm(n as int, r0, c0)] == (if r0 == c0 { dg } else { off }),
                    forall|c0: int| 0 <= c0 < j ==>
                        data@[#[trigger] rm(n as int, i as int, c0)] == (if i == c0 { dg } else { off }),
                decreases n - j,
            {
                proof {
                    lemma_rm_index(n as nat, i as nat, j as nat);
                }
                if i == j {
                    data.push(dg);
                } else {
                    data.push(off);
                }
                proof {
                    assert forall|r0: int, c0: int| 0 <= r0 < i && 0 <= c0 < n implies
                        data@[#[trigger] rm(n as int, r0, c0)] == (if r0 == c0 { dg } else { off }) by {
                        lemma_rm_below(n as int, r0, c0, i as int);
                    }
                }
                j = j + 1;
            }
            proof {
                lemma_row_step(n as int, i as int);
            }
            i = i + 1;
        }
        let r = CMatrix { n, data };
        proof {
            assert forall|i: int, j: int| 0 <= i < n && 0 <= j < n implies #[trigger] r.entry(i, j)
                == (if i == j { dg } else { off }) by {
                lemma_rm_index(n as nat, i as nat, j as nat);
                assert(data@[rm(n as int, i, j)] == (if i == j { dg } else { off }));
            }
        }
        r
    }

    /// The n-by-n identity matrix.
    pub fn identity(n: usize) -> (r: CMatrix)
        requires
            n * n <= usize::MAX,
        ensures
            r.wf(),
            r.dim() == n,
    {
        CMatrix::diag_from(n, c_zero(), c_one())
    }

    /// The identity matrix of the same dimension as `self`.
    pub fn identity_like(&self) -> (r: CMatrix)
        requires
            self.wf(),
        ensures
            r.wf(),
            r.dim() == self.dim(),
    {
        let n = self.dims();
        let _total = self.entry_count();
        CMatrix::identity(n)
    }

    /// The zero matrix of the same dimension as `self`.
    pub fn zeros_like(&self) -> (r: CMatrix)
        requires
            self.wf(),
        ensures
            r.wf(),
            r.dim() == self.dim(),
    {
        let n = self.dims();
        let _total = self.entry_count();
        CMatrix::filled(n, c_zero())
    }

    /// An exact copy of this matrix.
    #[verifier::loop_isolation(false)]
    pub fn duplicate(&self) -> (r: CMatrix)
        ensures
            r.dim() == self.dim(),
            r.entries() == self.entries(),
    {
        let len = self.data.len();
        let mut data: Vec<num_complex::Complex64> = Vec::new();
        let mut k: usize = 0;
        while k < len
            invariant
                k <= len,
                data@.len() == k,
                forall|t: int| 0 <= t < k ==> data@[t] == self.entries()[t],
            decreases len - k,
        {
            data.push(self.data[k]);
            k = k + 1;
        }
        proof {
            assert(data@ =~= self.entries());
        }
        CMatrix { n: self.n, data }
    }

    /// Replaces entry (i, j); every other entry stays.
    pub(crate) fn set_entry(&mut self, i: usize, j: usize, v: num_complex::Complex64)
        requires
            old(self).wf(),
            i < old(self).dim(),
            j < old(self).dim(),
        ensures
            final(self).wf(),
            final(self).dim() == old(self).dim(),
            final(self).entries() == old(self).entries().update(
                i as int * old(self).dim() as int + j as int, v),
    {
        let len = self.data.len();
        proof {
            lemma_rm_index(self.dim(), i as nat, j as nat);
            assert(i * self.dim() + j < len);
        }
        let idx = i * self.n + j;
        self.data.set(idx, v);
    }

    /// The transpose: entry (i, j) of the result is entry (j, i) of `self`.
    #[verifier::loop_isolation(false)]
    pub fn transpose(&self) -> (r: CMatrix)
        requires
            self.wf(),
        ensures
            r.wf(),
            r.dim() == self.dim(),
            forall|i: int, j: int| 0 <= i < self.dim() && 0 <= j < self.dim() ==>
                r.entry(i, j) == self.entry(j, i),
    {
        let n = self.n;
        let mut data: Vec<num_complex::Complex64> = Vec::new();
        let mut i: usize = 0;
        while i < n
            invariant
                i <= n,
                data@.len() == i * n,
                forall|r0: int, c0: int| 0 <= r0 < i && 0 <= c0 < n ==>
                    data@[#[trigger] rm(n as int, r0, c0)] == self.entry(c0, r0),
            decreases n - i,
        {
            let mut j: usize = 0;
            while j < n
                invariant
                    j <= n,
                    i < n,
                    data@.len() == i * n + j,
                    forall|r0: int, c0: int| 0 <= r0 < i && 0 <= c0 < n ==>
                        data@[#[trigger] rm(n as int, r0, c0)] == self.entry(c0, r0),
                    forall|c0: int| 0 <= c0 < j ==>
                        data@[#[trigger] rm(n as int, i as int, c0)] == self.entry(c0, i as int),
                decreases n - j,
            {
                proof {
                    lemma_rm_index(n as nat, i as nat, j as nat);
                }
                data.push(self.get(j, i));
                proof {
                    assert forall|r0: int, c0: int| 0 <= r0 < i && 0 <= c0 < n implies
                        data@[#[trigger] rm(n as int, r0, c0)] == self.entry(c0, r0) by {
                        lemma_rm_below(n as int, r0, c0, i as int);
                    }
                }
                j = j + 1;
            }
            proof {
                lemma_row_step(n as int, i as int);
            }
            i = i + 1;
        }
        let r = CMatrix { n, data };
        proof {
            assert forall|i: int, j: int| 0 <= i < n && 0 <= j < n implies #[trigger] r.entry(i, j)
                == self.entry(j, i) by {
                lemma_rm_index(n as nat, i as nat, j as nat);
                assert(data@[rm(n as int, i, j)] == self.entry(j, i));
            }
        }
        r
    }

    /// The conjugate transpose: the transpose with every entry conjugated.
    #[verifier::loop_isolation(false)]
    pub fn conj_transpose(&self) -> (r: CMatrix)
        requires
            self.wf(),
        ensures
            r.wf(),
            r.dim() == self.dim(),
    {
        let n = self.n;
        let mut data: Vec<num_complex::Complex64> = Vec::new();
        let mut i: usize = 0;
        while i < n
            invariant
                i <= n,
                data@.len() == i * n,
            decreases n - i,
        {
            let mut j: usize = 0;
            while j < n
                invariant
                    j <= n,
                    i < n,
                    data@.len() == i * n + j,
                decreases n - j,
            {
                data.push(c_conj(self.get(j, i)));
                j = j + 1;
            }
            proof {
                lemma_row_step(n as int, i as int);
            }
            i = i + 1;
        }
        CMatrix { n, data }
    }

    /// Entry-wise sum.
    #[verifier::loop_isolation(false)]
    pub fn add_mat(&self, other: &CMatrix) -> (r: CMatrix)
        requires
            self.wf(),
            other.wf(),
            self.dim() == other.dim(),
        ensures
            r.wf(),
            r.dim() == self.dim(),
    {
        let len = self.entry_count();
        let mut data: Vec<num_complex::Complex64> = Vec::new();
        let mut k: usize = 0;
        while k < len
            invariant
                k <= len,
                data@.len() == k,
            decreases len - k,
        {
            data.push(c_add(self.data[k], other.data[k]));
            k = k + 1;
        }
        CMatrix { n: self.n, data }
    }

    /// Entry-wise difference.
    #[verifier::loop_isolation(false)]
    pub fn sub_mat(&self, other: &CMatrix) -> (r: CMatrix)
        requires
            self.wf(),
            other.wf(),
            self.dim() == other.dim(),
        ensures
            r.wf(),
            r.dim() == self.dim(),
    {
        let len = self.entry_count();
        let mut data: Vec<num_complex::Complex64> = Vec::new();
        let mut k: usize = 0;
        while k < len
            invariant
                k <= len,
                data@.len() == k,
            decreases len - k,
        {
            data.push(crate::scalar::c_sub(self.data[k], other.data[k]));
            k = k + 1;
        }
        CMatrix { n: self.n, data }
    }

    /// Entry-wise multiplication by the scalar `s` (each entry times `s`).
    #[verifier::loop_isolation(false)]
    pub fn scale(&self, s: num_complex::Complex64) -> (r: CMatrix)
        requires
            self.wf(),
        ensures
            r.wf(),
            r.dim() == self.dim(),
    {
        let len = self.entry_count();
        let mut data: Vec<num_complex::Complex64> = Vec::new();
        let mut k: usize = 0;
        while k < len
            invariant
                k <= len,
                data@.len() == k,
            decreases len - k,
        {
            data.push(c_mul(self.data[k], s));
            k = k + 1;
        }
        CMatrix { n: self.n, data }
    }

    /// The matrix product self · other.
    #[verifier::loop_isolation(false)]
    pub fn matmul(&self, other: &CMatrix) -> (r: CMatrix)
        requires
            self.wf(),
            other.wf(),
            self.dim() == other.dim(),
        ensures
            r.wf(),
            r.dim() == self.dim(),
    {
        let n = self.n;
        let mut data: Vec<num_complex::Complex64> = Vec::new();
        let mut i: usize = 0;
        while i < n
            invariant
                i <= n,
                data@.len() == i * n,
            decreases n - i,
        {
            let mut j: usize = 0;
            while j < n
                invariant
                    j <= n,
                    i < n,
                    data@.len() == i * n + j,
                decreases n - j,
            {
                let mut acc = c_zero();
                let mut k: usize = 0;
                while k < n
                    invariant
                        k <= n,
                        i < n,
                        j < n,
                    decreases n - k,
                {
                    acc = c_add(acc, c_mul(self.get(i, k), other.get(k, j)));
                    k = k + 1;
                }
                data.push(acc);
                j = j + 1;
            }
            proof {
                lemma_row_step(n as int, i as int);
            }
            i = i + 1;
        }
        CMatrix { n, data }
    }

    /// Swaps rows r1 and r2: each entry of one row moves to the other, and
    /// every other row stays.
    #[verifier::loop_isolation(false)]
    pub(crate) fn swap_rows(&mut self, r1: usize, r2: usize)
        requires
            old(self).wf(),
            r1 < old(self).dim(),
            r2 < old(self).dim(),
        ensures
            final(self).wf(),
            final(self).dim() == old(self).dim(),
            forall|c: int| 0 <= c < old(self).dim() ==>
                #[trigger] final(self).entry(r1 as int, c) == old(self).entry(r2 as int, c),
            forall|c: int| 0 <= c < old(self).dim() ==>
                #[trigger] final(self).entry(r2 as int, c) == old(self).entry(r1 as int, c),
            forall|i: int, c: int|
                0 <= i < old(self).dim() && 0 <= c < old(self).dim() && i != r1 && i != r2 ==>
                    #[trigger] final(self).entry(i, c) == old(self).entry(i, c),
    {
        let n = self.n;
        let ghost nn = n as int;
        let ghost a = r1 as int;
        let ghost b = r2 as int;
        let mut j: usize = 0;
        while j < n
            invariant
                j <= n,
                self.wf(),
                self.dim() == old(self).dim(),
                self.dim() == n,
                forall|c: int| 0 <= c < j ==>
                    #[trigger] self.entry(a, c) == old(self).entry(b, c),
                forall|c: int| 0 <= c < j ==>
                    #[trigger] self.entry(b, c) == old(self).entry(a, c),
                forall|i: int, c: int|
                    0 <= i < n && 0 <= c < n && i != a && i != b ==>
                        #[trigger] self.entry(i, c) == old(self).entry(i, c),
                forall|c: int| j <= c < n ==>
                    #[trigger] self.entry(a, c) == old(self).entry(a, c),
                forall|c: int| j <= c < n ==>
                    #[trigger] self.entry(b, c) == old(self).entry(b, c),
            decreases n - j,
        {
            let x = self.get(r1, j);
            let y = self.get(r2, j);
            let ghost before = *self;
            self.set_entry(r1, j, y);
            self.set_entry(r2, j, x);
            proof {
                let jj = j as int;
                assert forall|i: int, c: int| 0 <= i < n && 0 <= c < n implies
                    #[trigger] self.entry(i, c) == (
                        if i == b && c == jj {
                            x
                        } else if i == a && c == jj {
                            y
                        } else {
                            before.entry(i, c)
                        }
                    ) by {
                    lemma_rm_index(n as nat, i as nat, c as nat);
                    lemma_rm_index(n as nat, a as nat, jj as nat);
                    lemma_rm_index(n as nat, b as nat, jj as nat);
                    if rm(nn, i, c) == rm(nn, b, jj) {
                        lemma_rm_injective(nn, i, c, b, jj);
                    }
                    if rm(nn, i, c) == rm(nn, a, jj) {
                        lemma_rm_injective(nn, i, c, a, jj);
                    }
                }
            }
            j = j + 1;
        }
    }

    /// Gauss–Jordan inversion with partial pivoting. Returns `None` when a
    /// pivot column has an exactly zero pivot (the matrix is seen as
    /// singular); otherwise an n-by-n approximate inverse.
    #[verifier::loop_isolation(false)]
    pub fn try_inverse(&self) -> (r: Option<CMatrix>)
        requires
            self.wf(),
        ensures
            r matches Some(m) ==> m.wf() && m.dim() == self.dim(),
    {
        let n = self.n;
        let mut a = self.duplicate();
        let mut inv = self.identity_like();
        let mut col: usize = 0;
        while col < n
            invariant
                col <= n,
                a.wf(),
                a.dim() == n,
                inv.wf(),
                inv.dim() == n,
            decreases n - col,
        {
            let mut best = col;
            let mut best_mag = c_norm_sqr(&a.get(col, col));
            let mut r2 = col + 1;
            while r2 < n
                invariant
                    col < n,
                    col <= best < n,
                    col < r2 <= n,
                    a.wf(),
                    a.dim() == n,
                decreases n - r2,
            {
                let mag = c_norm_sqr(&a.get(r2, col));
                if crate::scalar::c_re_lt(&best_mag, &mag) {
                    best = r2;
                    best_mag = mag;
                }
                r2 = r2 + 1;
            }
            let p = a.get(best, col);
            if crate::scalar::c_is_zero(&p) {
                return None;
            }
            a.swap_rows(col, best);
            inv.swap_rows(col, best);
            let pivot = a.get(col, col);
            let mut j: usize = 0;
            while j < n
                invariant
                    j <= n,
                    col < n,
                    a.wf(),
                    a.dim() == n,
                    inv.wf(),
                    inv.dim() == n,
                decreases n - j,
            {
                a.set_entry(col, j, crate::scalar::c_div(a.get(col, j), pivot));
                inv.set_entry(col, j, crate::scalar::c_div(inv.get(col, j), pivot));
                j = j + 1;
            }
            let mut r3: usize = 0;
            while r3 < n
                invariant
                    r3 <= n,
                    col < n,
                    a.wf(),
                    a.dim() == n,
                    inv.wf(),
                    inv.dim() == n,
                decreases n - r3,
            {
                if r3 != col {
                    let factor = a.get(r3, col);
                    let mut j2: usize = 0;
                    while j2 < n
                        invariant
                            j2 <= n,
                            col < n,
                            r3 < n,
                            a.wf(),
                            a.dim() == n,
                            inv.wf(),
                            inv.dim() == n,
                        decreases n - j2,
                    {
                        a.set_entry(r3, j2, crate::scalar::c_sub(
                            a.get(r3, j2), c_mul(factor, a.get(col, j2))));
                        inv.set_entry(r3, j2, crate::scalar::c_sub(
                            inv.get(r3, j2), c_mul(factor, inv.get(col, j2))));
                        j2 = j2 + 1;
                    }
                }
                r3 = r3 + 1;
            }
            col = col + 1;
        }
        Some(inv)
    }

    /// The Frobenius norm: the square root of the sum of the squared entry
    /// moduli, as a complex value with zero imaginary part.
    pub fn frobenius_norm(&self) -> (r: num_complex::Complex64)
    {
        let len = self.data.len();
        let mut sum = c_zero();
        let mut k: usize = 0;
        while k < len
            invariant
                k <= len,
                len == self.entries().len(),
            decreases len - k,
        {
            sum = c_add(sum, c_norm_sqr(&self.data[k]));
            k = k + 1;
        }
        c_sqrt(sum)
    }
}

} // verus!
