use logm::{
    geodesic_distance, geodesic_interp, log_near_identity, matrix_exp, matrix_log,
    matrix_log_general, matrix_log_orthogonal, matrix_log_quasi_triangular, sqrt_denman_beavers,
    CMatrix, LogStrategy,
};
use num_complex::Complex64;
use std::f64::consts::PI;

fn cmat(n: usize, entries: &[f64]) -> CMatrix {
    let data: Vec<Complex64> = entries.iter().map(|&x| Complex64::new(x, 0.0)).collect();
    CMatrix::from_vec(n, data).expect("entry count must be n*n")
}

fn eye(n: usize) -> CMatrix {
    let mut entries = vec![0.0; n * n];
    for i in 0..n {
        entries[i * n + i] = 1.0;
    }
    cmat(n, &entries)
}

fn rotation2(angle: f64) -> CMatrix {
    let (s, c) = (angle.sin(), angle.cos());
    cmat(2, &[c, -s, s, c])
}

fn rotation3z(angle: f64) -> CMatrix {
    let (s, c) = (angle.sin(), angle.cos());
    cmat(3, &[c, -s, 0.0, s, c, 0.0, 0.0, 0.0, 1.0])
}

/// A generic 3D rotation with no special axis: z, then x.
fn rotation3_generic() -> CMatrix {
    let (az, ax) = (0.4_f64, 0.7_f64);
    let (sz, cz) = (az.sin(), az.cos());
    let (sx, cx) = (ax.sin(), ax.cos());
    let z = cmat(3, &[cz, -sz, 0.0, sz, cz, 0.0, 0.0, 0.0, 1.0]);
    let x = cmat(3, &[1.0, 0.0, 0.0, 0.0, cx, -sx, 0.0, sx, cx]);
    z.matmul(&x)
}

fn frobenius(m: &CMatrix) -> f64 {
    let n = m.dims();
    let mut sum = 0.0;
    for i in 0..n {
        for j in 0..n {
            sum += m.get(i, j).norm_sqr();
        }
    }
    sum.sqrt()
}

fn frobenius_diff(a: &CMatrix, b: &CMatrix) -> f64 {
    let n = a.dims();
    assert_eq!(n, b.dims());
    let mut sum = 0.0;
    for i in 0..n {
        for j in 0..n {
            sum += (a.get(i, j) - b.get(i, j)).norm_sqr();
        }
    }
    sum.sqrt()
}

/// Frobenius distance between the real parts of two matrices.
fn frobenius_diff_re(a: &CMatrix, b: &CMatrix) -> f64 {
    let n = a.dims();
    assert_eq!(n, b.dims());
    let mut sum = 0.0;
    for i in 0..n {
        for j in 0..n {
            let d = a.get(i, j).re - b.get(i, j).re;
            sum += d * d;
        }
    }
    sum.sqrt()
}

#[test]
fn log_of_identity_is_zero_under_all_strategies() {
    for n in [1, 2, 3, 4] {
        let id = eye(n);
        for strategy in [
            LogStrategy::GeneralScalingSquaring,
            LogStrategy::SchurQuasiTriangular,
            LogStrategy::SchurDiagonal,
        ] {
            let (lg, _) = matrix_log(&id, strategy);
            assert!(
                frobenius(&lg) < 1e-10,
                "log(I_{}) should vanish, got norm {}",
                n,
                frobenius(&lg)
            );
        }
    }
}

#[test]
fn log_of_2d_rotation_is_skew_symmetric() {
    let theta = 0.7_f64;
    let r = rotation2(theta);
    let (lg, _) = matrix_log_orthogonal(&r);

    assert!(lg.get(0, 0).re.abs() < 1e-10);
    assert!(lg.get(1, 1).re.abs() < 1e-10);
    assert!((lg.get(0, 1).re + theta).abs() < 1e-8);
    assert!((lg.get(1, 0).re - theta).abs() < 1e-8);
    assert!(lg.get(0, 1).im.abs() < 1e-8);
    assert!(lg.get(1, 0).im.abs() < 1e-8);
}

#[test]
fn log_of_3d_rotation_keeps_axis_component_zero() {
    let theta = 0.9_f64;
    let r = rotation3z(theta);
    let (lg, _) = matrix_log_orthogonal(&r);
    assert!(lg.get(2, 2).norm() < 1e-10);
}

#[test]
fn interpolation_round_trip_reconstructs_rotation() {
    let r = rotation3_generic();
    let id = eye(3);
    let (back, _) = geodesic_interp(&id, &r, Complex64::new(1.0, 0.0), LogStrategy::SchurDiagonal);
    let rel = frobenius_diff_re(&back, &r) / frobenius(&r);
    assert!(rel < 1e-6, "relative reconstruction error {}", rel);
}

#[test]
fn general_and_schur_logarithms_agree_on_rotations() {
    let r = rotation2(0.9);
    let general = matrix_log_general(&r);
    let (schur, _) = matrix_log_orthogonal(&r);
    for i in 0..2 {
        for j in 0..2 {
            let d = general.get(i, j) - schur.get(i, j);
            assert!(
                d.norm() < 1e-8,
                "strategies disagree at ({}, {}): {:?} vs {:?}",
                i,
                j,
                general.get(i, j),
                schur.get(i, j)
            );
        }
    }
}

#[test]
fn quasi_triangular_strategy_agrees_on_rotations() {
    let theta = 0.6_f64;
    let r = rotation2(theta);
    let (lg, diag) = matrix_log_quasi_triangular(&r);
    assert!(!diag.schur_failed);
    assert!(lg.get(0, 0).re.abs() < 1e-8);
    assert!((lg.get(0, 1).re + theta).abs() < 1e-8);
    assert!((lg.get(1, 0).re - theta).abs() < 1e-8);
}

#[test]
fn geodesic_distance_is_nonnegative_and_zero_on_equal_inputs() {
    let r = rotation3_generic();
    let (d_same, _) = geodesic_distance(&r, &r, LogStrategy::SchurDiagonal);
    assert!(d_same.re >= 0.0);
    assert!(d_same.re < 1e-8, "distance(R, R) = {}", d_same.re);

    let id = eye(2);
    let theta = 0.5_f64;
    let t = rotation2(theta);
    let (d, _) = geodesic_distance(&id, &t, LogStrategy::SchurDiagonal);
    assert!(d.re >= 0.0);
    // For a 2D rotation by θ the logarithm is [[0, -θ], [θ, 0]], so the
    // distance is θ·√2.
    assert!((d.re - theta * std::f64::consts::SQRT_2).abs() < 1e-8);
}

#[test]
fn interpolation_matches_endpoints() {
    let a = rotation2(0.3);
    let b = rotation2(1.1);
    let (at0, _) = geodesic_interp(&a, &b, Complex64::new(0.0, 0.0), LogStrategy::SchurDiagonal);
    let (at1, _) = geodesic_interp(&a, &b, Complex64::new(1.0, 0.0), LogStrategy::SchurDiagonal);
    assert!(frobenius_diff_re(&at0, &a) < 1e-6);
    assert!(frobenius_diff_re(&at1, &b) < 1e-6);
}

#[test]
fn interpolation_halfway_between_rotations() {
    let theta = 0.8_f64;
    let id = eye(2);
    let b = rotation2(theta);
    let (mid, _) = geodesic_interp(&id, &b, Complex64::new(0.5, 0.0), LogStrategy::SchurDiagonal);
    let expected = rotation2(theta / 2.0);
    assert!(frobenius_diff_re(&mid, &expected) < 1e-6);
}

#[test]
fn log_of_quarter_turn_matches_closed_form() {
    // n = 2, R = rotation by 45 degrees: log(R) = [[0, -π/4], [π/4, 0]].
    let r = rotation2(PI / 4.0);
    let (lg, _) = matrix_log_orthogonal(&r);
    assert!(lg.get(0, 0).norm() < 1e-10);
    assert!(lg.get(1, 1).norm() < 1e-10);
    assert!((lg.get(0, 1).re + PI / 4.0).abs() < 1e-8);
    assert!((lg.get(1, 0).re - PI / 4.0).abs() < 1e-8);
    assert!(lg.get(0, 1).im.abs() < 1e-8);
    assert!(lg.get(1, 0).im.abs() < 1e-8);
}

#[test]
fn exponential_of_zero_matrix_is_identity() {
    let z = cmat(3, &[0.0; 9]);
    let e = matrix_exp(&z);
    assert!(frobenius_diff(&e, &eye(3)) < 1e-12);
}

#[test]
fn exponential_of_skew_matrix_is_rotation() {
    let theta = 0.8_f64;
    let skew = cmat(2, &[0.0, -theta, theta, 0.0]);
    let e = matrix_exp(&skew);
    assert!(frobenius_diff_re(&e, &rotation2(theta)) < 1e-6);
}

#[test]
fn square_root_squares_back() {
    let r = rotation2(0.8);
    let y = sqrt_denman_beavers(&r);
    assert!(frobenius_diff(&y.matmul(&y), &r) < 1e-8);
}

#[test]
fn inverse_of_rotation_restores_identity() {
    let r = rotation3_generic();
    let inv = r.try_inverse().expect("rotation must be invertible");
    assert!(frobenius_diff(&r.matmul(&inv), &eye(3)) < 1e-10);
}

#[test]
fn singular_matrix_has_no_inverse() {
    let z = cmat(2, &[0.0; 4]);
    assert!(z.try_inverse().is_none());
}

#[test]
fn from_vec_validates_entry_count() {
    let nine: Vec<Complex64> = vec![Complex64::new(0.0, 0.0); 9];
    let eight: Vec<Complex64> = vec![Complex64::new(0.0, 0.0); 8];
    assert!(CMatrix::from_vec(3, nine).is_some());
    assert!(CMatrix::from_vec(3, eight).is_none());
    assert!(CMatrix::from_vec(0, Vec::new()).is_some());
}

#[test]
fn zero_eigenvalue_gets_finite_substitute() {
    let z = cmat(1, &[0.0]);
    let (lg, _) = matrix_log_orthogonal(&z);
    assert_eq!(lg.get(0, 0).re, -1e10);
    assert_eq!(lg.get(0, 0).im, 0.0);
}

#[test]
fn non_diagonal_schur_form_is_reported() {
    // A defective (non-normal) matrix: its Schur form stays truly
    // triangular, which the diagonal-Schur strategy reports.
    let m = cmat(2, &[1.0, 1.0, 0.0, 1.0]);
    let (_, diag) = matrix_log_orthogonal(&m);
    assert!(diag.off_diagonal_excess);
    assert!(!diag.schur_failed);
    assert!(diag.max_off_diagonal.re > 1e-6);

    let r = rotation2(0.4);
    let (_, diag_ok) = matrix_log_orthogonal(&r);
    assert!(!diag_ok.off_diagonal_excess);
}

#[test]
fn near_identity_series_matches_closed_form() {
    // For a rotation this close to the identity the series alone suffices:
    // log(R(θ)) = [[0, -θ], [θ, 0]].
    let theta = 0.1_f64;
    let lg = log_near_identity(&rotation2(theta));
    assert!(lg.get(0, 0).norm() < 1e-12);
    assert!((lg.get(0, 1).re + theta).abs() < 1e-12);
    assert!((lg.get(1, 0).re - theta).abs() < 1e-12);
}

#[test]
fn exponential_undoes_general_logarithm() {
    let r = rotation2(1.2);
    let lg = matrix_log_general(&r);
    let back = matrix_exp(&lg);
    assert!(frobenius_diff_re(&back, &r) < 1e-6);
}

#[test]
fn failed_decomposition_is_reported_and_falls_back() {
    // A matrix of NaNs never converges in the Schur iteration; the call must
    // still return (with the fallback flagged) rather than fail.
    let nan = f64::NAN;
    let m = cmat(3, &[nan; 9]);
    let (lg, diag) = matrix_log_orthogonal(&m);
    assert!(diag.schur_failed);
    assert_eq!(lg.dims(), 3);
}

#[test]
fn transpose_moves_entries_exactly() {
    let m = cmat(2, &[1.0, 2.0, 3.0, 4.0]);
    let t = m.transpose();
    assert_eq!(t.get(0, 1).re, 3.0);
    assert_eq!(t.get(1, 0).re, 2.0);
    assert_eq!(t.get(0, 0).re, 1.0);
    assert_eq!(t.get(1, 1).re, 4.0);
}
