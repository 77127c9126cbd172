use logm::{matrix_log_orthogonal, CMatrix};
use num_complex::Complex64;
use std::f64::consts::PI;

fn mat(n: usize, entries: &[f64]) -> CMatrix {
    let data: Vec<Complex64> = entries.iter().map(|&x| Complex64::new(x, 0.0)).collect();
    CMatrix::from_vec(n, data).expect("entry count must be n*n")
}

fn identity(n: usize) -> CMatrix {
    let mut entries = vec![0.0; n * n];
    for i in 0..n {
        entries[i * n + i] = 1.0;
    }
    mat(n, &entries)
}

fn rot2(angle: f64) -> CMatrix {
    let (s, c) = (angle.sin(), angle.cos());
    mat(2, &[c, -s, s, c])
}

fn rot3z(angle: f64) -> CMatrix {
    let (s, c) = (angle.sin(), angle.cos());
    mat(3, &[c, -s, 0.0, s, c, 0.0, 0.0, 0.0, 1.0])
}

#[test]
fn test_matrix_log_orthogonal_identity() {
    // Test that log(I) = 0
    let identity = identity(3);
    let (log_i, _) = matrix_log_orthogonal(&identity);

    // Check that all elements are close to zero
    for i in 0..3 {
        for j in 0..3 {
            assert!(
                log_i.get(i, j).norm() < 1e-10,
                "log(I)[{},{}] = {:?}, expected ~0",
                i,
                j,
                log_i.get(i, j)
            );
        }
    }
}

#[test]
fn test_matrix_log_orthogonal_2d_rotation() {
    // Test a simple 2D rotation
    let angle = PI / 4.0; // 45 degrees
    let r = rot2(angle);

    let (log_r, _) = matrix_log_orthogonal(&r);

    // For 2D rotation by angle θ, log should be skew-symmetric with elements ±θi
    // log(R) = [[0, -θ], [θ, 0]]
    println!(
        "log(R) = [[{:?}, {:?}], [{:?}, {:?}]]",
        log_r.get(0, 0),
        log_r.get(0, 1),
        log_r.get(1, 0),
        log_r.get(1, 1)
    );

    // Check skew-symmetry
    assert!(
        (log_r.get(0, 0).re).abs() < 1e-10,
        "Diagonal should be real and near 0"
    );
    assert!(
        (log_r.get(1, 1).re).abs() < 1e-10,
        "Diagonal should be real and near 0"
    );

    // Check that it captured the rotation
    let mag = (log_r.get(0, 1).norm_sqr() + log_r.get(1, 0).norm_sqr()).sqrt();
    println!(
        "Magnitude: {}, expected: {}",
        mag,
        angle * std::f64::consts::SQRT_2
    );
}

#[test]
fn test_matrix_log_orthogonal_3d_rotation() {
    // Test a 3D rotation around z-axis
    let angle = PI / 6.0; // 30 degrees
    let r = rot3z(angle);

    let (log_r, _) = matrix_log_orthogonal(&r);

    println!(
        "3D rotation log, z entry = {:?}",
        log_r.get(2, 2)
    );

    // Check that z-axis component is preserved (no rotation in z)
    assert!(
        (log_r.get(2, 2).norm()) < 1e-10,
        "z-component should be near 0"
    );
}
