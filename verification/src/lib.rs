//! A dead simple feed-forward neural network over a hand-rolled,
//! shape-checked 2-D matrix type, with every operation verified.
//!
//! The matrix side offers construction from rows, matrix multiplication,
//! transposition, column maxima, element-wise arithmetic, the sigmoid
//! activation helpers and the mean-squared-difference loss, all generic
//! over a narrow numeric element capability. The network side owns one
//! weight matrix per layer transition and runs forward propagation,
//! error backpropagation and iterative training on top of the matrix
//! operations.

pub mod matrix;
pub mod neural_net;
pub mod num;

pub use matrix::ElemDimMismatchErr;
pub use matrix::EmptyMatrixErr;
pub use matrix::MSEDimMismatchErr;
pub use matrix::MatMulDimMismatchErr;
pub use matrix::Matrix;
pub use matrix::mean_loss;
pub use matrix::mse_diff;
pub use matrix::normalize_val;
pub use matrix::denormalize_val;
pub use matrix::sigmoid;
pub use matrix::sigmoid_prime;
pub use neural_net::NeuralNetwork;
pub use neural_net::NoHiddenLayerErr;
pub use num::Num;
pub use num::Real;
