//! Complex scalars.
//!
//! Entries of every matrix in this library are `num_complex::Complex64`
//! values. The type is opaque to the verifier: each arithmetic operation on
//! it is a thin trusted wrapper around the one `num_complex` (or primitive)
//! operation it names. Nothing is claimed about the floating-point results;
//! the verified layers above only move these values around and prove
//! structural facts (dimensions, bounds, termination).
//!
//! Real quantities (norms, tolerances, interpolation parameters) are carried
//! as complex values with zero imaginary part, so that a single scalar type
//! serves the whole library.

use vstd::prelude::*;

verus! {

#[verifier::external_type_specification]
#[verifier::external_body]
#[verifier::reject_recursive_types(T)]
pub struct ExComplex<T>(num_complex::Complex<T>);

/// Relies on num_complex's `Add` impl for `Complex64`: complex addition.
#[verifier::external_body]
pub(crate) fn c_add(a: num_complex::Complex64, b: num_complex::Complex64) -> num_complex::Complex64 {
    a + b
}

/// Relies on num_complex's `Sub` impl for `Complex64`: complex subtraction.
#[verifier::external_body]
pub(crate) fn c_sub(a: num_complex::Complex64, b: num_complex::Complex64) -> num_complex::Complex64 {
    a - b
}

/// Relies on num_complex's `Mul` impl for `Complex64`: complex multiplication.
#[verifier::external_body]
pub(crate) fn c_mul(a: num_complex::Complex64, b: num_complex::Complex64) -> num_complex::Complex64 {
    a * b
}

/// Relies on num_complex's `Div` impl for `Complex64`: complex division.
#[verifier::external_body]
pub(crate) fn c_div(a: num_complex::Complex64, b: num_complex::Complex64) -> num_complex::Complex64 {
    a / b
}

/// Relies on num_complex's scalar `Div` impl (`Complex64 / f64`): divides each
/// component of `a` by the real part of `d`.
#[verifier::external_body]
pub(crate) fn c_div_re(a: num_complex::Complex64, d: num_complex::Complex64) -> num_complex::Complex64 {
    a / d.re
}

/// Relies on num_traits' `Zero` impl for `Complex64`: the value 0 + 0i.
#[verifier::external_body]
pub(crate) fn c_zero() -> num_complex::Complex64 {
    num_traits::Zero::zero()
}

/// Relies on num_traits' `One` impl for `Complex64`: the value 1 + 0i.
#[verifier::external_body]
pub(crate) fn c_one() -> num_complex::Complex64 {
    num_traits::One::one()
}

/// Relies on num_traits' `Zero::is_zero` for `Complex64`: whether both
/// components equal zero.
#[verifier::external_body]
pub(crate) fn c_is_zero(z: &num_complex::Complex64) -> bool {
    num_traits::Zero::is_zero(z)
}

/// Relies on num_complex's `Complex::conj`: the complex conjugate.
#[verifier::external_body]
pub(crate) fn c_conj(z: num_complex::Complex64) -> num_complex::Complex64 {
    z.conj()
}

/// Relies on num_complex's `Complex::ln`: the principal branch of the complex
/// logarithm, ln|z| + i·arg(z) with arg(z) = atan2(im, re) in [−π, π].
#[verifier::external_body]
pub(crate) fn c_ln(z: num_complex::Complex64) -> num_complex::Complex64 {
    z.ln()
}

/// Relies on num_complex's `Complex::sqrt`: the principal complex square root.
#[verifier::external_body]
pub(crate) fn c_sqrt(z: num_complex::Complex64) -> num_complex::Complex64 {
    z.sqrt()
}

/// Relies on num_complex's `Complex::norm_sqr`: |z|², returned as a complex
/// value with zero imaginary part via num_complex's `From` impl.
#[verifier::external_body]
pub(crate) fn c_norm_sqr(z: &num_complex::Complex64) -> num_complex::Complex64 {
    num_complex::Complex64::from(z.norm_sqr())
}

/// Relies on num_complex's `Complex::norm`: the modulus |z|, returned as a
/// complex value with zero imaginary part via num_complex's `From` impl.
#[verifier::external_body]
pub(crate) fn c_abs(z: &num_complex::Complex64) -> num_complex::Complex64 {
    num_complex::Complex64::from(z.norm())
}

/// Relies on num_complex's `From` impl: the real part of `z` as a complex
/// value with zero imaginary part.
#[verifier::external_body]
pub(crate) fn c_re(z: num_complex::Complex64) -> num_complex::Complex64 {
    num_complex::Complex64::from(z.re)
}

/// Relies on num_complex's `From` impl: the imaginary part of `z` as a
/// complex value with zero imaginary part.
#[verifier::external_body]
pub(crate) fn c_im(z: num_complex::Complex64) -> num_complex::Complex64 {
    num_complex::Complex64::from(z.im)
}

/// Relies on num_complex's `Complex::new`: the complex value whose real part
/// is the real part of `re` and whose imaginary part is the real part of `im`.
#[verifier::external_body]
pub(crate) fn c_combine(re: num_complex::Complex64, im: num_complex::Complex64) -> num_complex::Complex64 {
    num_complex::Complex64::new(re.re, im.re)
}

/// Relies on the primitive `<` comparison of the real parts of `a` and `b`;
/// false whenever either real part is NaN.
#[verifier::external_body]
pub(crate) fn c_re_lt(a: &num_complex::Complex64, b: &num_complex::Complex64) -> bool {
    a.re < b.re
}

/// The complex value v + 0i for an unsigned integer v, built by binary
/// double-and-add from the trusted one; exact for every `u64`
/// below 2^53, which covers every constant this library forms.
pub(crate) fn c_from_u64(v: u64) -> num_complex::Complex64 {
    let one = c_one();
    let mut acc = c_zero();
    let mut bit: u32 = 64;
    while bit > 0
        invariant bit <= 64,
        decreases bit,
    {
        bit = bit - 1;
        acc = c_add(acc, acc);
        if (v >> bit) & 1 == 1 {
            acc = c_add(acc, one);
        }
    }
    acc
}

/// The complex value v + 0i for a signed integer v.
pub(crate) fn c_from_i64(v: i64) -> num_complex::Complex64 {
    if v >= 0 {
        c_from_u64(v as u64)
    } else {
        let m = if v == i64::MIN { 9223372036854775808u64 } else { (-v) as u64 };
        c_sub(c_zero(), c_from_u64(m))
    }
}

/// The complex value num/den + 0i, formed by component-wise division, so that
/// it equals the correctly rounded quotient of the two integers.
pub(crate) fn c_ratio(num: u64, den: u64) -> num_complex::Complex64 {
    c_div_re(c_from_u64(num), c_from_u64(den))
}

} // verus!
