//! Principal matrix logarithm and matrix exponential of square matrices,
//! with a geodesic distance and a geodesic interpolation on the rotation
//! manifold built from them.
//!
//! Matrices are dense, square and complex ([`algebra::CMatrix`]); callers
//! supply and read back plain row-major entry vectors. Two logarithm
//! families are offered: a general inverse scaling-and-squaring path
//! ([`logarithm`], with its Denman–Beavers square root in [`sqrtm`]) and a
//! Schur-decomposition path specialized for orthogonal matrices ([`schur`]),
//! selected by [`schur::LogStrategy`]. Floating-point values themselves are
//! opaque to the verifier; the proofs cover shapes, indexing, iteration
//! bounds and the exact movement of entries, while the numerical behaviour
//! is stated in documentation and exercised by the test suite.

mod scalar;
pub mod algebra;
pub mod sqrtm;
pub mod logarithm;
pub mod expm;
pub mod schur;
pub mod geodesic;

pub use algebra::CMatrix;
pub use expm::{matrix_exp, pade_exp};
pub use geodesic::{geodesic_distance, geodesic_interp};
pub use logarithm::{log_near_identity, matrix_log_general};
pub use schur::{
    matrix_log, matrix_log_orthogonal, matrix_log_quasi_triangular, LogDiagnostics, LogStrategy,
};
pub use sqrtm::sqrt_denman_beavers;
