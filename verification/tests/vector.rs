use matmul::vector::dot_product;
use matmul::vector::Vector;
use matmul::MatrixError;

#[test]
fn dot_product_of_equal_lengths() {
    let a = Vector::new(vec![1, 2, 3]);
    let b = Vector::new(vec![4, 5, 6]);
    assert_eq!(dot_product(a, b).unwrap(), 32);
}

#[test]
fn dot_product_of_empty_vectors_is_zero() {
    let a = Vector::new(vec![]);
    let b = Vector::new(vec![]);
    assert_eq!(dot_product(a, b).unwrap(), 0);
}

#[test]
fn dot_product_rejects_unequal_lengths() {
    let a = Vector::new(vec![1, 2, 3]);
    let b = Vector::new(vec![4, 5]);
    assert!(matches!(dot_product(a, b), Err(MatrixError::VectorLengthMismatch)));
}

#[test]
fn dot_product_wraps_around() {
    let a = Vector::new(vec![i64::MAX, 1]);
    let b = Vector::new(vec![1, 1]);
    assert_eq!(dot_product(a, b).unwrap(), i64::MIN);
}
