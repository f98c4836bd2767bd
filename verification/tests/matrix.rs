use matmul::matrix::multiply;
use matmul::matrix::worker_of;
use matmul::matrix::Matrix;
use matmul::matrix::MsgInput;
use matmul::matrix::NUM_THREADS;
use matmul::vector::Vector;
use matmul::MatrixError;

#[test]
fn test_matrix_display() {
    let a = Matrix::new(vec![1, 2, 3, 4], 2, 2).unwrap();
    let b = Matrix::new(vec![1, 2, 3, 4], 2, 2).unwrap();
    let c = multiply(&a, &b).unwrap();
    assert_eq!(*c.entries(), vec![7, 10, 15, 22]);
    assert_eq!(c.render(), "{7 10, 15 22}");
}

#[test]
fn test_a_can_not_multiply_b() {
    let a = Matrix::new(vec![1, 2, 3, 4, 5, 6], 2, 3).unwrap();
    let b = Matrix::new(vec![1, 2, 3, 4], 2, 2).unwrap();
    let c = multiply(&a, &b);
    assert!(c.is_err());
}

#[test]
fn mismatch_is_dimension_mismatch() {
    let a = Matrix::new(vec![1, 2, 3, 4, 5, 6], 2, 3).unwrap();
    let b = Matrix::new(vec![1, 2, 3, 4], 2, 2).unwrap();
    assert!(matches!(multiply(&a, &b), Err(MatrixError::DimensionMismatch)));
}

#[test]
fn product_has_outer_dimensions() {
    let a = Matrix::new(vec![0; 6], 2, 3).unwrap();
    let b = Matrix::new(vec![0; 12], 3, 4).unwrap();
    let c = multiply(&a, &b).unwrap();
    assert_eq!(c.rows(), 2);
    assert_eq!(c.cols(), 4);
    assert_eq!(c.entries().len(), 8);
}

fn naive_multiply(a: &[i64], ar: usize, ac: usize, b: &[i64], bc: usize) -> Vec<i64> {
    let mut out = vec![0i64; ar * bc];
    for i in 0..ar {
        for j in 0..bc {
            let mut sum = 0i64;
            for k in 0..ac {
                sum = sum.wrapping_add(a[i * ac + k].wrapping_mul(b[k * bc + j]));
            }
            out[i * bc + j] = sum;
        }
    }
    out
}

fn next_value(seed: &mut u64) -> i64 {
    *seed = seed.wrapping_mul(6364136223846793005).wrapping_add(1442695040888963407);
    *seed as i64
}

#[test]
fn multiply_matches_naive_reference() {
    let mut seed: u64 = 0x9e3779b97f4a7c15;
    for (ar, ac, bc) in [(1, 1, 1), (2, 3, 2), (4, 4, 4), (3, 5, 2)] {
        let a_data: Vec<i64> = (0..ar * ac).map(|_| next_value(&mut seed)).collect();
        let b_data: Vec<i64> = (0..ac * bc).map(|_| next_value(&mut seed)).collect();
        let expected = naive_multiply(&a_data, ar, ac, &b_data, bc);
        let a = Matrix::new(a_data, ar, ac).unwrap();
        let b = Matrix::new(b_data, ac, bc).unwrap();
        let c = multiply(&a, &b).unwrap();
        assert_eq!(*c.entries(), expected);
    }
}

#[test]
fn multiply_by_identity_keeps_matrix() {
    let data = vec![5, -3, 0, 7, 11, -9, 2, 4, 6];
    let a = Matrix::new(data.clone(), 3, 3).unwrap();
    let id = Matrix::new(vec![1, 0, 0, 0, 1, 0, 0, 0, 1], 3, 3).unwrap();
    let c = multiply(&a, &id).unwrap();
    assert_eq!(*c.entries(), data);
}

#[test]
fn multiply_is_deterministic() {
    let a = Matrix::new(vec![9, -2, 3, 8, 0, -7], 2, 3).unwrap();
    let b = Matrix::new(vec![1, 2, 3, 4, 5, 6], 3, 2).unwrap();
    let c1 = multiply(&a, &b).unwrap();
    let c2 = multiply(&a, &b).unwrap();
    assert_eq!(*c1.entries(), *c2.entries());
    assert_eq!(c1.rows(), c2.rows());
    assert_eq!(c1.cols(), c2.cols());
}

#[test]
fn render_is_stable_across_calls() {
    let m = Matrix::new(vec![-1, 0, 42, 7], 2, 2).unwrap();
    let first = m.render();
    let second = m.render();
    assert_eq!(first, second);
    assert_eq!(first, "{-1 0, 42 7}");
}

#[test]
fn render_single_cell() {
    let m = Matrix::new(vec![-5], 1, 1).unwrap();
    assert_eq!(m.render(), "{-5}");
}

#[test]
fn render_extreme_values() {
    let m = Matrix::new(vec![i64::MIN, i64::MAX], 1, 2).unwrap();
    assert_eq!(m.render(), "{-9223372036854775808 9223372036854775807}");
}

#[test]
fn construction_rejects_wrong_buffer_length() {
    assert!(matches!(Matrix::new(vec![1, 2, 3], 2, 2), Err(MatrixError::ConstructionError)));
    assert!(matches!(Matrix::new(vec![1, 2, 3, 4, 5], 2, 2), Err(MatrixError::ConstructionError)));
}

#[test]
fn construction_rejects_zero_dimensions() {
    assert!(matches!(Matrix::new(vec![], 0, 3), Err(MatrixError::ConstructionError)));
    assert!(matches!(Matrix::new(vec![], 3, 0), Err(MatrixError::ConstructionError)));
}

#[test]
fn get_reads_row_major_cells() {
    let m = Matrix::new(vec![1, 2, 3, 4, 5, 6], 2, 3).unwrap();
    assert_eq!(m.get(0, 0), 1);
    assert_eq!(m.get(0, 2), 3);
    assert_eq!(m.get(1, 0), 4);
    assert_eq!(m.get(1, 2), 6);
}

#[test]
fn routing_is_index_mod_workers() {
    assert_eq!(worker_of(0, NUM_THREADS), 0);
    assert_eq!(worker_of(5, NUM_THREADS), 1);
    assert_eq!(worker_of(7, NUM_THREADS), 3);
    assert_eq!(worker_of(8, NUM_THREADS), 0);
}

#[test]
fn task_carries_index_row_and_column() {
    let t = MsgInput::new(3, Vector::new(vec![1, 2]), Vector::new(vec![3, 4]));
    assert_eq!(t.idx, 3);
    assert_eq!(t.row.len(), 2);
    assert_eq!(t.col.len(), 2);
    assert_eq!(t.row.get(1), 2);
    assert_eq!(t.col.get(0), 3);
}
