use artha::MSEDimMismatchErr;
use artha::Matrix;
use artha::Num;
use artha::Real;
use artha::denormalize_val;
use artha::mean_loss;
use artha::mse_diff;
use artha::normalize_val;
use artha::sigmoid;
use artha::sigmoid_prime;

/// A floating-point element type, supplied from outside the verified
/// world through the numeric capability the library is generic over.
#[derive(Clone, Copy, Debug, PartialEq)]
struct F(f64);

impl Num for F {
    // Spec-level counterparts: compiled stubs that mirror the
    // executable methods below; they are never called at run time.
    fn zero_s() -> F {
        F(0.0)
    }
    fn add_s(self, other: F) -> F {
        F(self.0 + other.0)
    }
    fn sub_s(self, other: F) -> F {
        F(self.0 - other.0)
    }
    fn mul_s(self, other: F) -> F {
        F(self.0 * other.0)
    }
    fn lt_s(self, other: F) -> bool {
        self.0 < other.0
    }
    fn exact_s(self) -> bool {
        self.0.is_finite()
    }
    fn law_sub_self(_x: F) {}
    fn law_mul_zero() {}
    fn law_add_zero() {}

    fn zero() -> F {
        F(0.0)
    }
    fn add(self, other: F) -> F {
        F(self.0 + other.0)
    }
    fn sub(self, other: F) -> F {
        F(self.0 - other.0)
    }
    fn mul(self, other: F) -> F {
        F(self.0 * other.0)
    }
    fn lt(self, other: F) -> bool {
        self.0 < other.0
    }
}

impl Real for F {
    fn one_s() -> F {
        F(1.0)
    }
    fn div_s(self, other: F) -> F {
        F(self.0 / other.0)
    }
    fn div_n_s(self, n: usize) -> F {
        F(self.0 / n as f64)
    }
    fn sigmoid_s(self) -> F {
        F(1.0 / (1.0 + (-self.0).exp()))
    }
    fn law_div_n_zero(_n: usize) {}

    fn one() -> F {
        F(1.0)
    }
    fn div(self, other: F) -> F {
        F(self.0 / other.0)
    }
    fn div_n(self, n: usize) -> F {
        F(self.0 / n as f64)
    }
    fn sigmoid(self) -> F {
        F(1.0 / (1.0 + (-self.0).exp()))
    }
}

fn m(rows: Vec<Vec<f64>>) -> Matrix<F> {
    Matrix::from_rows(rows.into_iter().map(|r| r.into_iter().map(F).collect()).collect())
}

#[test]
fn sigmoid_of_zero_is_half() {
    let s = sigmoid(&m(vec![vec![0.0]]));
    assert_eq!(s.get(0, 0), F(0.5));
}

#[test]
fn sigmoid_stays_in_open_interval() {
    let mut xs: Vec<f64> = Vec::new();
    let mut v = -30.0;
    while v <= 30.0 {
        xs.push(v);
        v += 1.5;
    }
    let s = sigmoid(&m(vec![xs.clone()]));
    for j in 0..xs.len() {
        let y = s.get(0, j).0;
        assert!(0.0 < y && y < 1.0, "sigmoid({}) = {}", xs[j], y);
    }
}

#[test]
fn sigmoid_is_monotone_on_samples() {
    let s = sigmoid(&m(vec![vec![-2.0, -1.0, 0.0, 1.0, 2.0]]));
    for j in 1..5 {
        assert!(s.get(0, j - 1).0 < s.get(0, j).0);
    }
}

#[test]
fn sigmoid_prime_of_activation() {
    let p = sigmoid_prime(&m(vec![vec![0.5, 0.25]]));
    assert_eq!(p.get(0, 0), F(0.25));
    assert_eq!(p.get(0, 1), F(0.25 * 0.75));
}

#[test]
fn mse_of_matrix_with_itself_is_zero() {
    let a = m(vec![vec![1.5, -2.25], vec![0.0, 7.75]]);
    let b = m(vec![vec![1.5, -2.25], vec![0.0, 7.75]]);
    assert_eq!(mse_diff(&a, &b).unwrap(), F(0.0));
}

#[test]
fn mse_exact_value() {
    let a = m(vec![vec![1.0, 2.0]]);
    let b = m(vec![vec![3.0, 4.0]]);
    assert_eq!(mse_diff(&a, &b).unwrap(), F(4.0));
}

#[test]
fn mse_mismatch_returns_error() {
    let a = m(vec![vec![2.0, 3.0, 5.0], vec![1.0, 2.0, 8.0], vec![3.0, 5.0, 9.0]]);
    let b = m(vec![vec![2.0, 3.0], vec![1.0, 2.0]]);
    let e = mse_diff(&a, &b).unwrap_err();
    assert_eq!(
        e,
        MSEDimMismatchErr { left_rows: 3, left_cols: 3, right_rows: 2, right_cols: 2 }
    );
}

#[test]
fn mean_loss_matches_mse_diff() {
    let a = m(vec![vec![1.0, 2.0], vec![-1.0, 0.5]]);
    let b = m(vec![vec![0.0, 2.5], vec![1.0, 0.0]]);
    assert_eq!(mean_loss(&a, &b), mse_diff(&a, &b).unwrap());
}

#[test]
fn normalize_by_column_max() {
    let mut x = m(vec![vec![2.0, 9.0], vec![1.0, 5.0], vec![3.0, 6.0]]);
    let maxes = x.max().unwrap();
    assert_eq!(maxes, vec![F(3.0), F(9.0)]);
    normalize_val(&maxes, &mut x);
    assert_eq!(x.get(0, 0), F(2.0 / 3.0));
    assert_eq!(x.get(0, 1), F(1.0));
    assert_eq!(x.get(1, 0), F(1.0 / 3.0));
    assert_eq!(x.get(1, 1), F(5.0 / 9.0));
    assert_eq!(x.get(2, 0), F(1.0));
    assert_eq!(x.get(2, 1), F(6.0 / 9.0));
    assert!((x.get(0, 0).0 - 0.667).abs() < 1e-3);
    assert!((x.get(1, 1).0 - 0.556).abs() < 1e-3);
}

#[test]
fn denormalize_undoes_normalize() {
    let mut x = m(vec![vec![2.0, 8.0], vec![1.0, 4.0]]);
    let maxes = vec![F(2.0), F(8.0)];
    normalize_val(&maxes, &mut x);
    denormalize_val(&maxes, &mut x);
    assert_eq!(x.get(0, 0), F(2.0));
    assert_eq!(x.get(0, 1), F(8.0));
    assert_eq!(x.get(1, 0), F(1.0));
    assert_eq!(x.get(1, 1), F(4.0));
}
