use artha::Matrix;
use artha::NeuralNetwork;
use artha::NoHiddenLayerErr;
use artha::Num;
use artha::Real;
use artha::mean_loss;
use artha::normalize_val;
use rand::Rng;
use rand::SeedableRng;
use rand::rngs::StdRng;

/// A floating-point element type, supplied from outside the verified
/// world through the numeric capability the library is generic over.
#[derive(Clone, Copy, Debug, PartialEq)]
struct F(f64);

impl Num for F {
    // Spec-level counterparts: compiled stubs that mirror the
    // executable methods below; they are never called at run time.
    fn zero_s() -> F {
        F(0.0)
    }
    fn add_s(self, other: F) -> F {
        F(self.0 + other.0)
    }
    fn sub_s(self, other: F) -> F {
        F(self.0 - other.0)
    }
    fn mul_s(self, other: F) -> F {
        F(self.0 * other.0)
    }
    fn lt_s(self, other: F) -> bool {
        self.0 < other.0
    }
    fn exact_s(self) -> bool {
        self.0.is_finite()
    }
    fn law_sub_self(_x: F) {}
    fn law_mul_zero() {}
    fn law_add_zero() {}

    fn zero() -> F {
        F(0.0)
    }
    fn add(self, other: F) -> F {
        F(self.0 + other.0)
    }
    fn sub(self, other: F) -> F {
        F(self.0 - other.0)
    }
    fn mul(self, other: F) -> F {
        F(self.0 * other.0)
    }
    fn lt(self, other: F) -> bool {
        self.0 < other.0
    }
}

impl Real for F {
    fn one_s() -> F {
        F(1.0)
    }
    fn div_s(self, other: F) -> F {
        F(self.0 / other.0)
    }
    fn div_n_s(self, n: usize) -> F {
        F(self.0 / n as f64)
    }
    fn sigmoid_s(self) -> F {
        F(1.0 / (1.0 + (-self.0).exp()))
    }
    fn law_div_n_zero(_n: usize) {}

    fn one() -> F {
        F(1.0)
    }
    fn div(self, other: F) -> F {
        F(self.0 / other.0)
    }
    fn div_n(self, n: usize) -> F {
        F(self.0 / n as f64)
    }
    fn sigmoid(self) -> F {
        F(1.0 / (1.0 + (-self.0).exp()))
    }
}

fn m(rows: Vec<Vec<f64>>) -> Matrix<F> {
    Matrix::from_rows(rows.into_iter().map(|r| r.into_iter().map(F).collect()).collect())
}

/// Uniform samples in [0, 1) from a seeded generator, as the network's
/// initial weight entries.
fn uniform_init(seed: u64, count: usize) -> Vec<F> {
    let mut rng = StdRng::seed_from_u64(seed);
    (0..count).map(|_| F(rng.gen::<f64>())).collect()
}

fn training_inputs() -> Matrix<F> {
    let mut xs = m(vec![vec![2.0, 9.0], vec![1.0, 5.0], vec![3.0, 6.0]]);
    let maxes = xs.max().unwrap();
    assert_eq!(maxes, vec![F(3.0), F(9.0)]);
    normalize_val(&maxes, &mut xs);
    xs
}

#[test]
fn new_without_hidden_layer_fails() {
    let r = NeuralNetwork::<F>::new(2, 1, vec![], vec![]);
    assert_eq!(r.unwrap_err(), NoHiddenLayerErr);
}

#[test]
fn new_shapes_weights_by_layer() {
    let init = uniform_init(7, 2 * 3 + 3 * 1);
    let nn = NeuralNetwork::new(2, 1, vec![3], init.clone()).unwrap();
    assert_eq!(nn.input_weights.dim, (2, 3));
    assert_eq!(nn.hidden_weights.len(), 1);
    assert_eq!(nn.hidden_weights[0].dim, (3, 1));
    // The stream fills the weights row-major, one transition after the
    // other.
    assert_eq!(nn.input_weights.get(0, 0), init[0]);
    assert_eq!(nn.input_weights.get(1, 2), init[5]);
    assert_eq!(nn.hidden_weights[0].get(0, 0), init[6]);
    assert_eq!(nn.hidden_weights[0].get(2, 0), init[8]);
}

#[test]
fn new_shapes_weights_two_hidden_layers() {
    let init = uniform_init(9, 2 * 4 + 4 * 3 + 3 * 1);
    let nn = NeuralNetwork::new(2, 1, vec![4, 3], init).unwrap();
    assert_eq!(nn.input_weights.dim, (2, 4));
    assert_eq!(nn.hidden_weights.len(), 2);
    assert_eq!(nn.hidden_weights[0].dim, (4, 3));
    assert_eq!(nn.hidden_weights[1].dim, (3, 1));
}

#[test]
fn predict_has_output_shape() {
    let nn = NeuralNetwork::new(2, 1, vec![3], uniform_init(7, 9)).unwrap();
    let xs = training_inputs();
    let p = nn.predict(&xs);
    assert_eq!(p.dim, (3, 1));
    for i in 0..3 {
        let y = p.get(i, 0).0;
        assert!(0.0 < y && y < 1.0);
    }
}

#[test]
fn forward_matches_predict_and_caches_activations() {
    let mut nn = NeuralNetwork::new(2, 1, vec![3], uniform_init(7, 9)).unwrap();
    let xs = training_inputs();
    let from_predict = nn.predict(&xs);
    let from_forward = nn.forward(&xs);
    assert_eq!(nn.activations.len(), 2);
    assert_eq!(nn.activations[0].dim, (3, 3));
    assert_eq!(nn.activations[1].dim, (3, 1));
    for i in 0..3 {
        assert_eq!(from_forward.get(i, 0), from_predict.get(i, 0));
        assert_eq!(nn.activations[1].get(i, 0), from_forward.get(i, 0));
    }
}

#[test]
fn training_reduces_mse() {
    let xs = training_inputs();
    let ys = m(vec![vec![0.92], vec![0.86], vec![0.89]]);
    let mut nn = NeuralNetwork::new(2, 1, vec![3], uniform_init(7, 9)).unwrap();
    let before = nn.predict(&xs);
    let loss_before = mean_loss(&ys, &before).0;
    nn.train(&xs, &ys, 2000);
    let after = nn.predict(&xs);
    let loss_after = mean_loss(&ys, &after).0;
    assert!(
        loss_after < loss_before,
        "loss did not fall: {} -> {}",
        loss_before,
        loss_after
    );
    assert!(loss_after < 0.01, "loss still large: {}", loss_after);
}

#[test]
fn training_is_deterministic_for_a_fixed_seed() {
    let xs = training_inputs();
    let ys = m(vec![vec![0.92], vec![0.86], vec![0.89]]);
    let mut nn1 = NeuralNetwork::new(2, 1, vec![3], uniform_init(7, 9)).unwrap();
    let mut nn2 = NeuralNetwork::new(2, 1, vec![3], uniform_init(7, 9)).unwrap();
    let pred_a = nn1.train(&xs, &ys, 500);
    let pred_b = nn2.train(&xs, &ys, 500);
    for i in 0..3 {
        assert_eq!(pred_a.get(i, 0), pred_b.get(i, 0));
    }
    // Training in two runs of the same total length gives the same
    // weights as one run.
    let mut nn3 = NeuralNetwork::new(2, 1, vec![3], uniform_init(7, 9)).unwrap();
    nn3.train(&xs, &ys, 300);
    nn3.train(&xs, &ys, 200);
    let pred_c = nn3.predict(&xs);
    let pred_a_now = nn1.predict(&xs);
    for i in 0..3 {
        assert_eq!(pred_c.get(i, 0), pred_a_now.get(i, 0));
    }
}
