//! A dead simple feed-forward neural network over [`Matrix`].
//!
//! The network owns one weight matrix per layer transition:
//! `input_weights` connects the inputs to the first hidden layer, and
//! `hidden_weights[i]` connects hidden layer `i` to the next layer (the
//! output layer for the last one). Forward propagation pushes the input
//! through `sigmoid(z · weight)` for every transition, caching one
//! activation per layer; backpropagation walks the transitions in
//! reverse, computing one delta per layer and adding
//! `activation_inᵀ · delta` onto each weight matrix.
//!
//! Weight initialization is injected: the constructor takes the stream
//! of initial entries (typically drawn from a random source by the
//! caller) and shapes it into the weight matrices, so that everything
//! after construction is a pure function of that stream.

use vstd::prelude::*;
pub use crate::matrix::denormalize_val;
pub use crate::matrix::mean_loss;
pub use crate::matrix::normalize_val;
pub use crate::matrix::sigmoid;
pub use crate::matrix::sigmoid_prime;
use crate::matrix::Matrix;
use crate::matrix::ew_add_seq;
use crate::matrix::ew_mul_seq;
use crate::matrix::ew_sub_seq;
use crate::matrix::mat_mul_seq;
use crate::matrix::sig_map;
use crate::matrix::sig_prime_map;
use crate::matrix::transpose_seq;
use crate::num::Real;

verus! {

broadcast use vstd::arithmetic::mul::group_mul_basics, vstd::arithmetic::mul::group_mul_is_distributive;

/// Error returned when a network is constructed without a hidden layer.
#[derive(Clone, Copy, Debug, PartialEq, Eq, Structural)]
pub struct NoHiddenLayerErr;

/// The `rows x cols` grid whose entries are read row-major from `s`
/// starting at `off`.
pub open spec fn grid_of<R>(s: Seq<R>, off: int, rows: int, cols: int) -> Seq<Seq<R>> {
    Seq::new(rows as nat, |i: int| Seq::new(cols as nat, |j: int| s[off + i * cols + j]))
}

/// The row count of weight matrix `k`: the input size for the first
/// transition, afterwards the width of hidden layer `k - 1`.
pub open spec fn in_width(input_size: usize, hidden: Seq<usize>, k: int) -> int {
    if k <= 0 {
        input_size as int
    } else {
        hidden[k - 1] as int
    }
}

/// The column count of weight matrix `k`: the width of hidden layer `k`,
/// or the output size for the last transition.
pub open spec fn out_width(output_size: usize, hidden: Seq<usize>, k: int) -> int {
    if k < hidden.len() {
        hidden[k] as int
    } else {
        output_size as int
    }
}

/// Where the entries of weight matrix `k` start in the flat
/// initialization stream: the total entry count of the matrices before
/// it. At `k` one past the last matrix this is the total stream length.
pub open spec fn w_offset(input_size: usize, output_size: usize, hidden: Seq<usize>, k: int) -> int
    decreases k,
{
    if k <= 0 {
        0
    } else {
        w_offset(input_size, output_size, hidden, k - 1) + in_width(input_size, hidden, k - 1)
            * out_width(output_size, hidden, k - 1)
    }
}

/// Offsets never decrease as `k` grows.
proof fn lemma_w_offset_mono(
    input_size: usize,
    output_size: usize,
    hidden: Seq<usize>,
    k1: int,
    k2: int,
)
    requires
        0 <= k1 <= k2,
    ensures
        w_offset(input_size, output_size, hidden, k1) <= w_offset(
            input_size,
            output_size,
            hidden,
            k2,
        ),
    decreases k2 - k1,
{
    if k2 > k1 {
        lemma_w_offset_mono(input_size, output_size, hidden, k1, k2 - 1);
        assert(in_width(input_size, hidden, k2 - 1) * out_width(output_size, hidden, k2 - 1)
            >= 0) by (nonlinear_arith)
            requires
                in_width(input_size, hidden, k2 - 1) >= 0,
                out_width(output_size, hidden, k2 - 1) >= 0,
        ;
    }
}

/// The activation after transition `k` of a forward pass: the input for
/// the first transition, then each previous activation pushed through
/// `sigmoid(prev · ws[k])`.
pub open spec fn layer_out<R: Real>(
    ws: Seq<Seq<Seq<R>>>,
    outs: Seq<usize>,
    xs: Seq<Seq<R>>,
    k: int,
) -> Seq<Seq<R>>
    decreases k,
{
    if k <= 0 {
        sig_map(mat_mul_seq(xs, ws[0], outs[0] as nat))
    } else {
        sig_map(mat_mul_seq(layer_out(ws, outs, xs, k - 1), ws[k], outs[k] as nat))
    }
}

/// All activations of a forward pass, one per transition.
pub open spec fn all_layer_outs<R: Real>(
    ws: Seq<Seq<Seq<R>>>,
    outs: Seq<usize>,
    xs: Seq<Seq<R>>,
) -> Seq<Seq<Seq<R>>> {
    Seq::new(ws.len(), |k: int| layer_out(ws, outs, xs, k))
}

/// The backpropagated delta at transition `k`: at the output layer the
/// error `ys - prediction` gated by the sigmoid derivative of the
/// prediction; below that, the next delta pushed back through the next
/// weight's transpose, gated by the sigmoid derivative of this layer's
/// activation.
pub open spec fn delta_at<R: Real>(
    ws: Seq<Seq<Seq<R>>>,
    outs: Seq<usize>,
    acts: Seq<Seq<Seq<R>>>,
    ys: Seq<Seq<R>>,
    k: int,
) -> Seq<Seq<R>>
    decreases ws.len() - k,
{
    let l = ws.len() - 1;
    if k >= l {
        ew_mul_seq(ew_sub_seq(ys, acts[l]), sig_prime_map(acts[l]))
    } else {
        ew_mul_seq(
            mat_mul_seq(
                delta_at(ws, outs, acts, ys, k + 1),
                transpose_seq(ws[k + 1], outs[k + 1] as nat),
                outs[k] as nat,
            ),
            sig_prime_map(acts[k]),
        )
    }
}

/// Weight matrix `k` after one backpropagation step: the old weight
/// plus `zᵀ · delta`, where `z` is the activation entering transition
/// `k` (the input itself for the first transition).
pub open spec fn weight_update<R: Real>(
    ws: Seq<Seq<Seq<R>>>,
    outs: Seq<usize>,
    acts: Seq<Seq<Seq<R>>>,
    xs: Seq<Seq<R>>,
    xcols: usize,
    ys: Seq<Seq<R>>,
    k: int,
) -> Seq<Seq<R>> {
    let z = if k <= 0 {
        xs
    } else {
        acts[k - 1]
    };
    let zc: nat = if k <= 0 {
        xcols as nat
    } else {
        outs[k - 1] as nat
    };
    ew_add_seq(
        ws[k],
        mat_mul_seq(transpose_seq(z, zc), delta_at(ws, outs, acts, ys, k), outs[k] as nat),
    )
}

/// All weights after one training iteration: a forward pass produces
/// the activations, and every weight takes its backpropagation update.
pub open spec fn train_step<R: Real>(
    ws: Seq<Seq<Seq<R>>>,
    outs: Seq<usize>,
    xs: Seq<Seq<R>>,
    xcols: usize,
    ys: Seq<Seq<R>>,
) -> Seq<Seq<Seq<R>>> {
    Seq::new(
        ws.len(),
        |k: int| weight_update(ws, outs, all_layer_outs(ws, outs, xs), xs, xcols, ys, k),
    )
}

/// All weights after `n` training iterations.
pub open spec fn train_iter<R: Real>(
    ws: Seq<Seq<Seq<R>>>,
    outs: Seq<usize>,
    xs: Seq<Seq<R>>,
    xcols: usize,
    ys: Seq<Seq<R>>,
    n: int,
) -> Seq<Seq<Seq<R>>>
    decreases n,
{
    if n <= 0 {
        ws
    } else {
        train_step(train_iter(ws, outs, xs, xcols, ys, n - 1), outs, xs, xcols, ys)
    }
}

/// A dead simple neural network.
#[derive(Debug)]
pub struct NeuralNetwork<R> {
    pub input_size: usize,
    pub output_size: usize,
    pub hidden_sizes: Vec<usize>,
    pub input_weights: Matrix<R>,
    pub hidden_weights: Vec<Matrix<R>>,
    pub activations: Vec<Matrix<R>>,
}

impl<R: Real> NeuralNetwork<R> {
    /// All weight matrices as grids, the input transition first.
    pub open spec fn ws(&self) -> Seq<Seq<Seq<R>>> {
        Seq::new(
            self.hidden_weights@.len() + 1,
            |k: int|
                if k == 0 {
                    self.input_weights@
                } else {
                    self.hidden_weights@[k - 1]@
                },
        )
    }

    /// The column count of every weight matrix, the input transition
    /// first.
    pub open spec fn outs(&self) -> Seq<usize> {
        Seq::new(
            self.hidden_weights@.len() + 1,
            |k: int|
                if k == 0 {
                    self.input_weights.dim.1
                } else {
                    self.hidden_weights@[k - 1].dim.1
                },
        )
    }

    /// The cached activations as grids.
    pub open spec fn acts(&self) -> Seq<Seq<Seq<R>>> {
        Seq::new(self.activations@.len(), |k: int| self.activations@[k]@)
    }

    /// Structural consistency: at least one hidden layer, one hidden
    /// weight matrix per hidden layer, and every weight matrix shaped by
    /// the layer widths it connects.
    pub open spec fn wf(&self) -> bool {
        &&& self.hidden_sizes@.len() >= 1
        &&& self.hidden_weights@.len() == self.hidden_sizes@.len()
        &&& self.input_weights.wf()
        &&& self.input_weights.dim.0 == self.input_size
        &&& self.input_weights.dim.1 == self.hidden_sizes@[0]
        &&& forall|i: int|
            0 <= i < self.hidden_weights@.len() ==> {
                &&& (#[trigger] self.hidden_weights@[i]).wf()
                &&& self.hidden_weights@[i].dim.0 == self.hidden_sizes@[i]
                &&& self.hidden_weights@[i].dim.1 as int == out_width(
                    self.output_size,
                    self.hidden_sizes@,
                    i + 1,
                )
            }
    }

    /// Creates a new neural network with the given input, output and
    /// hidden sizes, shaping the given stream of initial entries into
    /// the weight matrices row-major, one transition after the other.
    /// Fails exactly when no hidden layer is given.
    pub fn new(
        input_size: usize,
        output_size: usize,
        hidden_sizes: Vec<usize>,
        init: Vec<R>,
    ) -> (r: Result<NeuralNetwork<R>, NoHiddenLayerErr>)
        requires
            hidden_sizes@.len() >= 1 ==> init@.len() == w_offset(
                input_size,
                output_size,
                hidden_sizes@,
                hidden_sizes@.len() as int + 1,
            ),
        ensures
            r is Ok <==> hidden_sizes@.len() >= 1,
            (match r {
                Ok(nn) => {
                    &&& nn.wf()
                    &&& nn.input_size == input_size
                    &&& nn.output_size == output_size
                    &&& nn.hidden_sizes@ == hidden_sizes@
                    &&& nn.activations@.len() == 0
                    &&& nn.ws().len() == hidden_sizes@.len() + 1
                    &&& forall|k: int|
                        0 <= k < nn.ws().len() ==> #[trigger] nn.ws()[k] == grid_of(
                            init@,
                            w_offset(input_size, output_size, hidden_sizes@, k),
                            in_width(input_size, hidden_sizes@, k),
                            out_width(output_size, hidden_sizes@, k),
                        )
                },
                Err(e) => e == NoHiddenLayerErr,
            }),
    {
        if hidden_sizes.len() == 0 {
            return Err(NoHiddenLayerErr);
        }
        let l = hidden_sizes.len();
        let mut pos: usize = 0;
        proof {
            assert(w_offset(input_size, output_size, hidden_sizes@, 0) == 0);
            assert(w_offset(input_size, output_size, hidden_sizes@, 1) == input_size
                * hidden_sizes@[0]);
            lemma_w_offset_mono(input_size, output_size, hidden_sizes@, 1, l as int + 1);
        }
        let input_weights = read_grid(&init, &mut pos, input_size, hidden_sizes[0]);
        let mut hidden_weights: Vec<Matrix<R>> = Vec::new();
        #[verifier::loop_isolation(false)]
        for t in 0..l
            invariant
                pos as int == w_offset(input_size, output_size, hidden_sizes@, t as int + 1),
                hidden_weights@.len() == t,
                forall|i: int|
                    0 <= i < t ==> {
                        &&& (#[trigger] hidden_weights@[i]).wf()
                        &&& hidden_weights@[i].dim.0 == hidden_sizes@[i]
                        &&& hidden_weights@[i].dim.1 as int == out_width(
                            output_size,
                            hidden_sizes@,
                            i + 1,
                        )
                        &&& hidden_weights@[i]@ == grid_of(
                            init@,
                            w_offset(input_size, output_size, hidden_sizes@, i + 1),
                            in_width(input_size, hidden_sizes@, i + 1),
                            out_width(output_size, hidden_sizes@, i + 1),
                        )
                    },
        {
            let rows = hidden_sizes[t];
            let cols = if t == l - 1 {
                output_size
            } else {
                hidden_sizes[t + 1]
            };
            proof {
                assert(in_width(input_size, hidden_sizes@, t as int + 1) == rows as int);
                assert(out_width(output_size, hidden_sizes@, t as int + 1) == cols as int);
                lemma_w_offset_mono(input_size, output_size, hidden_sizes@, t as int + 2, l as int + 1);
            }
            let w = read_grid(&init, &mut pos, rows, cols);
            hidden_weights.push(w);
        }
        let nn = NeuralNetwork {
            input_size,
            output_size,
            hidden_sizes,
            input_weights,
            hidden_weights,
            activations: Vec::new(),
        };
        Ok(nn)
    }

    /// Runs a forward pass: pushes `xs` through `sigmoid(z · weight)`
    /// for every transition, caching one activation per transition, and
    /// returns the final activation (the prediction).
    #[verifier::loop_isolation(false)]
    pub fn forward(&mut self, xs: &Matrix<R>) -> (r: Matrix<R>)
        requires
            old(self).wf(),
            xs.wf(),
            xs.dim.1 == old(self).input_size,
        ensures
            final(self).wf(),
            final(self).input_size == old(self).input_size,
            final(self).output_size == old(self).output_size,
            final(self).hidden_sizes == old(self).hidden_sizes,
            final(self).input_weights == old(self).input_weights,
            final(self).hidden_weights == old(self).hidden_weights,
            final(self).ws() == old(self).ws(),
            final(self).outs() == old(self).outs(),
            final(self).activations@.len() == old(self).ws().len(),
            forall|k: int|
                0 <= k < final(self).activations@.len() ==> {
                    &&& (#[trigger] final(self).activations@[k]).wf()
                    &&& final(self).activations@[k].dim.0 == xs.dim.0
                    &&& final(self).activations@[k].dim.1 == final(self).outs()[k]
                    &&& final(self).activations@[k]@ == layer_out(
                        old(self).ws(),
                        old(self).outs(),
                        xs@,
                        k,
                    )
                },
            r.wf(),
            r.dim.0 == xs.dim.0,
            r.dim.1 == old(self).output_size,
            r@ == layer_out(old(self).ws(), old(self).outs(), xs@, old(self).ws().len() - 1),
    {
        self.activations = Vec::new();
        let z0 = match xs.dot(&self.input_weights) {
            Ok(m) => m,
            Err(_) => {
                proof {
                    assert(false);
                }
                Matrix::new()
            },
        };
        let mut a = sigmoid(&z0);
        self.activations.push(a.duplicate());
        let l = self.hidden_weights.len();
        for t in 0..l
            invariant
                self.input_weights == old(self).input_weights,
                self.hidden_weights == old(self).hidden_weights,
                self.input_size == old(self).input_size,
                self.output_size == old(self).output_size,
                self.hidden_sizes == old(self).hidden_sizes,
                self.activations@.len() == t + 1,
                a.wf(),
                a.dim.0 == xs.dim.0,
                a.dim.1 == self.outs()[t as int],
                a@ == layer_out(self.ws(), self.outs(), xs@, t as int),
                forall|k: int|
                    0 <= k <= t ==> {
                        &&& (#[trigger] self.activations@[k]).wf()
                        &&& self.activations@[k].dim.0 == xs.dim.0
                        &&& self.activations@[k].dim.1 == self.outs()[k]
                        &&& self.activations@[k]@ == layer_out(self.ws(), self.outs(), xs@, k)
                    },
        {
            let w = &self.hidden_weights[t];
            let z = match a.dot(w) {
                Ok(m) => m,
                Err(_) => {
                    proof {
                        assert(false);
                    }
                    Matrix::new()
                },
            };
            a = sigmoid(&z);
            self.activations.push(a.duplicate());
        }
        proof {
            assert(final(self).ws() =~~= old(self).ws());
            assert(final(self).outs() =~= old(self).outs());
        }
        a
    }

    /// Runs a forward pass without touching the activation cache or any
    /// other state, and returns the prediction.
    #[verifier::loop_isolation(false)]
    pub fn predict(&self, xs: &Matrix<R>) -> (r: Matrix<R>)
        requires
            self.wf(),
            xs.wf(),
            xs.dim.1 == self.input_size,
        ensures
            r.wf(),
            r.dim.0 == xs.dim.0,
            r.dim.1 == self.output_size,
            r@ == layer_out(self.ws(), self.outs(), xs@, self.ws().len() - 1),
    {
        let z0 = match xs.dot(&self.input_weights) {
            Ok(m) => m,
            Err(_) => {
                proof {
                    assert(false);
                }
                Matrix::new()
            },
        };
        let mut a = sigmoid(&z0);
        let l = self.hidden_weights.len();
        for t in 0..l
            invariant
                a.wf(),
                a.dim.0 == xs.dim.0,
                a.dim.1 == self.outs()[t as int],
                a@ == layer_out(self.ws(), self.outs(), xs@, t as int),
        {
            let w = &self.hidden_weights[t];
            let z = match a.dot(w) {
                Ok(m) => m,
                Err(_) => {
                    proof {
                        assert(false);
                    }
                    Matrix::new()
                },
            };
            a = sigmoid(&z);
        }
        a
    }

    /// Backward propagation through the network: starting from the
    /// output error `ys - predicted`, computes one delta per transition
    /// in reverse order and adds each transition's update
    /// `activation_inᵀ · delta` onto its weight matrix. The activation
    /// cache must hold one activation per transition from a forward pass
    /// over `xs`, with `predicted` its final entry; the cache itself is
    /// left unchanged.
    #[verifier::loop_isolation(false)]
    pub fn backward(&mut self, xs: &Matrix<R>, ys: &Matrix<R>, predicted: &Matrix<R>)
        requires
            old(self).wf(),
            xs.wf(),
            ys.wf(),
            predicted.wf(),
            xs.dim.1 == old(self).input_size,
            ys.dim.0 == xs.dim.0,
            ys.dim.1 == old(self).output_size,
            old(self).activations@.len() == old(self).ws().len(),
            forall|k: int|
                0 <= k < old(self).activations@.len() ==> {
                    &&& (#[trigger] old(self).activations@[k]).wf()
                    &&& old(self).activations@[k].dim.0 == xs.dim.0
                    &&& old(self).activations@[k].dim.1 == old(self).outs()[k]
                },
            predicted@ == old(self).acts()[old(self).ws().len() - 1],
            predicted.dim == old(self).activations@[old(self).ws().len() - 1].dim,
        ensures
            final(self).wf(),
            final(self).input_size == old(self).input_size,
            final(self).output_size == old(self).output_size,
            final(self).hidden_sizes == old(self).hidden_sizes,
            final(self).activations == old(self).activations,
            final(self).input_weights.dim == old(self).input_weights.dim,
            final(self).hidden_weights@.len() == old(self).hidden_weights@.len(),
            forall|i: int|
                0 <= i < final(self).hidden_weights@.len() ==> (
                #[trigger] final(self).hidden_weights@[i]).dim == old(self).hidden_weights@[i].dim,
            final(self).outs() == old(self).outs(),
            forall|k: int|
                0 <= k < final(self).ws().len() ==> #[trigger] final(self).ws()[k]
                    == weight_update(
                    old(self).ws(),
                    old(self).outs(),
                    old(self).acts(),
                    xs@,
                    xs.dim.1,
                    ys@,
                    k,
                ),
    {
        let l = self.hidden_weights.len();
        let err = match ys.sub(predicted) {
            Ok(m) => m,
            Err(_) => {
                proof {
                    assert(false);
                }
                Matrix::new()
            },
        };
        let sp = sigmoid_prime(predicted);
        let mut delta = match err.mul(&sp) {
            Ok(m) => m,
            Err(_) => {
                proof {
                    assert(false);
                }
                Matrix::new()
            },
        };
        proof {
            assert(delta@ == delta_at(old(self).ws(), old(self).outs(), old(self).acts(), ys@, l as int));
        }
        let mut k: usize = l;
        while k > 0
            invariant
                k <= l,
                self.input_size == old(self).input_size,
                self.output_size == old(self).output_size,
                self.hidden_sizes == old(self).hidden_sizes,
                self.activations == old(self).activations,
                self.input_weights == old(self).input_weights,
                self.hidden_weights@.len() == l,
                delta.wf(),
                delta.dim.0 == xs.dim.0,
                delta.dim.1 == old(self).outs()[k as int],
                delta@ == delta_at(old(self).ws(), old(self).outs(), old(self).acts(), ys@, k as int),
                forall|i: int|
                    0 <= i < k ==> #[trigger] self.hidden_weights@[i] == old(
                        self,
                    ).hidden_weights@[i],
                forall|i: int|
                    k <= i < l ==> {
                        &&& (#[trigger] self.hidden_weights@[i]).wf()
                        &&& self.hidden_weights@[i].dim == old(self).hidden_weights@[i].dim
                        &&& self.hidden_weights@[i]@ == weight_update(
                            old(self).ws(),
                            old(self).outs(),
                            old(self).acts(),
                            xs@,
                            xs.dim.1,
                            ys@,
                            i + 1,
                        )
                    },
            decreases k,
        {
            let w = &self.hidden_weights[k - 1];
            let wt = w.transpose();
            let err_k = match delta.dot(&wt) {
                Ok(m) => m,
                Err(_) => {
                    proof {
                        assert(false);
                    }
                    Matrix::new()
                },
            };
            let a_in = &self.activations[k - 1];
            let spk = sigmoid_prime(a_in);
            let new_delta = match err_k.mul(&spk) {
                Ok(m) => m,
                Err(_) => {
                    proof {
                        assert(false);
                    }
                    Matrix::new()
                },
            };
            let zt = a_in.transpose();
            let upd = match zt.dot(&delta) {
                Ok(m) => m,
                Err(_) => {
                    proof {
                        assert(false);
                    }
                    Matrix::new()
                },
            };
            let new_w = match self.hidden_weights[k - 1].add(&upd) {
                Ok(m) => m,
                Err(_) => {
                    proof {
                        assert(false);
                    }
                    Matrix::new()
                },
            };
            self.hidden_weights.set(k - 1, new_w);
            delta = new_delta;
            k = k - 1;
        }
        let xt = xs.transpose();
        let upd0 = match xt.dot(&delta) {
            Ok(m) => m,
            Err(_) => {
                proof {
                    assert(false);
                }
                Matrix::new()
            },
        };
        let new_w0 = match self.input_weights.add(&upd0) {
            Ok(m) => m,
            Err(_) => {
                proof {
                    assert(false);
                }
                Matrix::new()
            },
        };
        self.input_weights = new_w0;
        proof {
            assert(final(self).outs() =~= old(self).outs());
        }
    }

    /// Trains the network on the given inputs and targets for `n`
    /// iterations of forward propagation followed by backpropagation,
    /// and returns the prediction of the last forward pass (a plain
    /// forward pass over the untouched weights when `n` is zero).
    #[verifier::loop_isolation(false)]
    pub fn train(&mut self, xs: &Matrix<R>, ys: &Matrix<R>, n: usize) -> (r: Matrix<R>)
        requires
            old(self).wf(),
            xs.wf(),
            ys.wf(),
            xs.dim.1 == old(self).input_size,
            ys.dim.0 == xs.dim.0,
            ys.dim.1 == old(self).output_size,
        ensures
            final(self).wf(),
            final(self).input_size == old(self).input_size,
            final(self).output_size == old(self).output_size,
            final(self).hidden_sizes == old(self).hidden_sizes,
            final(self).outs() == old(self).outs(),
            final(self).ws() == train_iter(
                old(self).ws(),
                old(self).outs(),
                xs@,
                xs.dim.1,
                ys@,
                n as int,
            ),
            r.wf(),
            r.dim.0 == xs.dim.0,
            r.dim.1 == old(self).output_size,
            r@ == layer_out(
                train_iter(
                    old(self).ws(),
                    old(self).outs(),
                    xs@,
                    xs.dim.1,
                    ys@,
                    if n == 0 {
                        0
                    } else {
                        n as int - 1
                    },
                ),
                old(self).outs(),
                xs@,
                old(self).ws().len() - 1,
            ),
    {
        let mut pred = self.forward(xs);
        let mut it: usize = 0;
        while it < n
            invariant
                it <= n,
                self.wf(),
                self.input_size == old(self).input_size,
                self.output_size == old(self).output_size,
                self.hidden_sizes == old(self).hidden_sizes,
                self.outs() == old(self).outs(),
                self.ws() == train_iter(old(self).ws(), old(self).outs(), xs@, xs.dim.1, ys@, it as int),
                pred.wf(),
                pred.dim.0 == xs.dim.0,
                pred.dim.1 == old(self).output_size,
                pred@ == layer_out(
                    train_iter(
                        old(self).ws(),
                        old(self).outs(),
                        xs@,
                        xs.dim.1,
                        ys@,
                        if it < n || n == 0 {
                            it as int
                        } else {
                            n as int - 1
                        },
                    ),
                    old(self).outs(),
                    xs@,
                    old(self).ws().len() - 1,
                ),
                it < n ==> {
                    &&& self.activations@.len() == self.ws().len()
                    &&& forall|k: int|
                        0 <= k < self.activations@.len() ==> {
                            &&& (#[trigger] self.activations@[k]).wf()
                            &&& self.activations@[k].dim.0 == xs.dim.0
                            &&& self.activations@[k].dim.1 == self.outs()[k]
                            &&& self.activations@[k]@ == layer_out(self.ws(), self.outs(), xs@, k)
                        }
                    &&& pred@ == self.acts()[self.ws().len() - 1]
                    &&& pred.dim == self.activations@[self.ws().len() - 1].dim
                },
            decreases n - it,
        {
            let ghost ws_before = self.ws();
            self.backward(xs, ys, &pred);
            proof {
                assert(self.acts() =~~= all_layer_outs(ws_before, old(self).outs(), xs@));
                assert(self.ws() =~~= train_step(ws_before, old(self).outs(), xs@, xs.dim.1, ys@));
            }
            it = it + 1;
            if it < n {
                pred = self.forward(xs);
            }
        }
        pred
    }
}

/// Reads a `rows x cols` matrix row-major from `init`, starting at the
/// cursor `pos` and advancing it past the consumed entries.
fn read_grid<R: Real>(init: &Vec<R>, pos: &mut usize, rows: usize, cols: usize) -> (m: Matrix<R>)
    requires
        *old(pos) + rows * cols <= init@.len(),
    ensures
        m.wf(),
        m.dim == (rows, cols),
        m@ == grid_of(init@, *old(pos) as int, rows as int, cols as int),
        *final(pos) == *old(pos) + rows * cols,
{
    let total = init.len();
    let mut data: Vec<Vec<R>> = Vec::new();
    for i in 0..rows
        invariant
            total == init@.len(),
            *old(pos) + rows * cols <= init@.len(),
            *pos == *old(pos) + i * cols,
            i * cols >= 0,
            i * cols <= rows * cols,
            data@.len() == i,
            forall|a: int|
                0 <= a < i ==> {
                    &&& (#[trigger] data@[a])@.len() == cols
                    &&& forall|b: int|
                        0 <= b < cols ==> data@[a]@[b] == init@[*old(pos) + a * cols + b]
                },
    {
        proof {
            assert(i * cols + cols == (i + 1) * cols) by (nonlinear_arith);
            assert(i * cols >= 0) by (nonlinear_arith)
                requires
                    i >= 0,
                    cols >= 0,
            ;
            assert((i + 1) * cols <= rows * cols) by (nonlinear_arith)
                requires
                    i + 1 <= rows,
                    cols >= 0,
            ;
        }
        let mut row: Vec<R> = Vec::new();
        for j in 0..cols
            invariant
                total == init@.len(),
                *old(pos) + rows * cols <= init@.len(),
                i < rows,
                *pos == *old(pos) + i * cols + j,
                i * cols + cols <= rows * cols,
                i * cols >= 0,
                row@.len() == j,
                forall|b: int| 0 <= b < j ==> row@[b] == init@[*old(pos) + i * cols + b],
        {
            row.push(init[*pos]);
            *pos = *pos + 1;
        }
        data.push(row);
    }
    let m = Matrix { data, dim: (rows, cols) };
    proof {
        assert(m@ =~~= grid_of(init@, *old(pos) as int, rows as int, cols as int));
    }
    m
}

} // verus!
