use artha::ElemDimMismatchErr;
use artha::EmptyMatrixErr;
use artha::MatMulDimMismatchErr;
use artha::Matrix;

fn m(rows: Vec<Vec<i64>>) -> Matrix<i64> {
    Matrix::from_rows(rows)
}

#[test]
fn new_is_empty() {
    let x: Matrix<i64> = Matrix::new();
    assert_eq!(x.dim, (0, 0));
}

#[test]
fn from_rows_records_shape() {
    let x = m(vec![vec![1, 2, 3], vec![4, 5, 6]]);
    assert_eq!(x.dim, (2, 3));
    assert_eq!(x.get(0, 0), 1);
    assert_eq!(x.get(1, 2), 6);
}

#[test]
fn transpose_swaps_shape() {
    let x = m(vec![vec![1, 2, 3], vec![4, 5, 6]]);
    let t = x.transpose();
    assert_eq!(t.dim, (3, 2));
    assert_eq!(t.get(0, 1), 4);
    assert_eq!(t.get(2, 0), 3);
    assert_eq!(t.get(2, 1), 6);
}

#[test]
fn transpose_twice_is_identity() {
    let x = m(vec![vec![2, 9], vec![1, 5], vec![3, 6]]);
    let tt = x.transpose().transpose();
    assert_eq!(tt.dim, x.dim);
    for i in 0..3 {
        for j in 0..2 {
            assert_eq!(tt.get(i, j), x.get(i, j));
        }
    }
}

#[test]
fn dot_product_values() {
    let a = m(vec![vec![1, 2], vec![3, 4], vec![5, 6]]);
    let b = m(vec![vec![7, 8], vec![9, 10]]);
    let p = a.dot(&b).unwrap();
    assert_eq!(p.dim, (3, 2));
    assert_eq!(p.get(0, 0), 25);
    assert_eq!(p.get(0, 1), 28);
    assert_eq!(p.get(1, 0), 57);
    assert_eq!(p.get(1, 1), 64);
    assert_eq!(p.get(2, 0), 89);
    assert_eq!(p.get(2, 1), 100);
}

#[test]
fn dot_mismatch_returns_error() {
    let a = m(vec![vec![2, 3, 5], vec![1, 2, 8], vec![3, 5, 9]]);
    let b = m(vec![vec![2, 3], vec![1, 2]]);
    let e = a.dot(&b).unwrap_err();
    assert_eq!(
        e,
        MatMulDimMismatchErr { left_rows: 3, left_cols: 3, right_rows: 2, right_cols: 2 }
    );
}

#[test]
fn max_per_column() {
    let x = m(vec![vec![2, 9], vec![1, 5], vec![3, 6]]);
    assert_eq!(x.max().unwrap(), vec![3, 9]);
}

#[test]
fn max_all_negative() {
    let x = m(vec![vec![-5, -1], vec![-2, -7]]);
    assert_eq!(x.max().unwrap(), vec![-2, -1]);
}

#[test]
fn max_without_rows_is_error() {
    let x: Matrix<i64> = Matrix::new();
    assert_eq!(x.max().unwrap_err(), EmptyMatrixErr);
}

#[test]
fn max_with_empty_rows_is_error() {
    let x = m(vec![vec![], vec![], vec![]]);
    assert_eq!(x.dim, (3, 0));
    assert_eq!(x.max().unwrap_err(), EmptyMatrixErr);
}

#[test]
fn elementwise_add_values() {
    let a = m(vec![vec![1, 2], vec![3, 4]]);
    let b = m(vec![vec![10, 20], vec![30, 40]]);
    let s = a.add(&b).unwrap();
    assert_eq!(s.get(0, 0), 11);
    assert_eq!(s.get(1, 1), 44);
}

#[test]
fn elementwise_sub_values() {
    let a = m(vec![vec![5, 7]]);
    let b = m(vec![vec![2, 9]]);
    let d = a.sub(&b).unwrap();
    assert_eq!(d.get(0, 0), 3);
    assert_eq!(d.get(0, 1), -2);
}

#[test]
fn elementwise_mul_values() {
    let a = m(vec![vec![5, 7]]);
    let b = m(vec![vec![2, -3]]);
    let p = a.mul(&b).unwrap();
    assert_eq!(p.get(0, 0), 10);
    assert_eq!(p.get(0, 1), -21);
}

#[test]
fn elementwise_mismatch_returns_error() {
    let a = m(vec![vec![1, 2], vec![3, 4]]);
    let b = m(vec![vec![1, 2, 3]]);
    let e = a.add(&b).unwrap_err();
    assert_eq!(
        e,
        ElemDimMismatchErr { left_rows: 2, left_cols: 2, right_rows: 1, right_cols: 3 }
    );
    assert!(a.sub(&b).is_err());
    assert!(a.mul(&b).is_err());
}

#[test]
fn add_assign_accumulates() {
    let mut a = m(vec![vec![1, 2]]);
    let b = m(vec![vec![10, 20]]);
    a.add_assign(&b).unwrap();
    assert_eq!(a.get(0, 0), 11);
    assert_eq!(a.get(0, 1), 22);
}

#[test]
fn add_assign_mismatch_leaves_unchanged() {
    let mut a = m(vec![vec![1, 2]]);
    let b = m(vec![vec![10, 20, 30]]);
    assert!(a.add_assign(&b).is_err());
    assert_eq!(a.get(0, 0), 1);
    assert_eq!(a.get(0, 1), 2);
}

#[test]
fn duplicate_is_independent() {
    let a = m(vec![vec![1, 2]]);
    let mut c = a.duplicate();
    assert_eq!(c.get(0, 1), 2);
    c.add_assign(&m(vec![vec![5, 5]])).unwrap();
    assert_eq!(a.get(0, 0), 1);
    assert_eq!(c.get(0, 0), 6);
}

#[test]
fn saturating_i64_arithmetic() {
    let a = m(vec![vec![i64::MAX]]);
    let b = m(vec![vec![1]]);
    let s = a.add(&b).unwrap();
    assert_eq!(s.get(0, 0), i64::MAX);
    let p = a.mul(&a).unwrap();
    assert_eq!(p.get(0, 0), i64::MAX);
    let neg = m(vec![vec![i64::MIN]]);
    let d = neg.sub(&b).unwrap();
    assert_eq!(d.get(0, 0), i64::MIN);
}
