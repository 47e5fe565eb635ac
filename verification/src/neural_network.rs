//! The layered numeric model: a sequence of layers, each a weight matrix and
//! a bias vector in fixed-point units, with a rectified-linear forward pass.
//!
//! The forward pass is the model's whole read-only interface: gradients and
//! losses are computed from it. Intermediate dot products accumulate in
//! saturating `i128` arithmetic (see the `fixed` module), so every value the
//! model produces is pinned exactly by a spec function.

use crate::fixed::{
    clamp_acc, clamp_to_i64, div_trunc, lemma_i64_product_fits, lemma_tdiv_bounds, mul_wide,
    sat64, sat_acc, tdiv, ACC_LIMIT, SCALE,
};
use vstd::prelude::*;

verus! {

/// Mathematical view of one layer: `weights[n]` is the incoming weight row of
/// neuron `n`, `biases[n]` its bias.
#[verifier::ext_equal]
pub struct LayerV {
    pub weights: Seq<Seq<i64>>,
    pub biases: Seq<i64>,
}

/// One layer of the model.
#[derive(Debug, PartialEq)]
pub struct Layer {
    pub weights: Vec<Vec<i64>>,
    pub biases: Vec<i64>,
}

impl View for Layer {
    type V = LayerV;

    open spec fn view(&self) -> LayerV {
        LayerV { weights: self.weights@.map_values(|v: Vec<i64>| v@), biases: self.biases@ }
    }
}

/// The shared model: an ordered sequence of layers. The `learning_rate` field
/// is carried for callers that build a model with a preferred step size; the
/// trainer takes its step size from its own configuration.
#[derive(Debug, PartialEq)]
pub struct NeuralNetwork {
    pub layers: Vec<Layer>,
    pub learning_rate: i64,
}

impl View for NeuralNetwork {
    type V = Seq<LayerV>;

    open spec fn view(&self) -> Seq<LayerV> {
        self.layers@.map_values(|l: Layer| l@)
    }
}

/// A layer has one bias per weight row.
pub open spec fn layer_wf(l: LayerV) -> bool {
    l.weights.len() == l.biases.len()
}

/// Every layer of the model is well-formed.
pub open spec fn model_wf(m: Seq<LayerV>) -> bool {
    forall|k: int| 0 <= k < m.len() ==> layer_wf(#[trigger] m[k])
}

/// Length of the activation vector entering layer `k`, for an input of
/// length `n`.
pub open spec fn act_len(m: Seq<LayerV>, n: nat, k: int) -> nat {
    if k <= 0 {
        n
    } else {
        m[k - 1].biases.len()
    }
}

/// The layers' dimensions chain: fed an input of length `n`, every weight row
/// has exactly the length of the activation vector reaching its layer.
pub open spec fn dims_ok(m: Seq<LayerV>, n: nat) -> bool {
    forall|k: int, r: int|
        0 <= k < m.len() && 0 <= r < m[k].weights.len() ==> (#[trigger] m[k].weights[r]).len()
            == act_len(m, n, k)
}

/// Length of the model's output when fed an input of length `n`.
pub open spec fn out_len(m: Seq<LayerV>, n: nat) -> nat {
    act_len(m, n, m.len() as int)
}

/// Rectified linear unit.
pub open spec fn relu(v: int) -> int {
    if v > 0 {
        v
    } else {
        0
    }
}

/// Saturating dot product of the first `k` entries of `w` and `x`, in
/// fixed-point: the running accumulator saturates at `ACC_LIMIT` after each
/// added product.
pub open spec fn dot_acc(w: Seq<i64>, x: Seq<i64>, k: int) -> int
    decreases k,
{
    if k <= 0 {
        0
    } else {
        sat_acc(dot_acc(w, x, k - 1) + w[k - 1] * x[k - 1])
    }
}

/// Output of one neuron: bias plus the rescaled dot product, rectified.
pub open spec fn neuron_out(bias: i64, w: Seq<i64>, x: Seq<i64>) -> int {
    relu(sat64(bias + tdiv(dot_acc(w, x, w.len() as int), SCALE as int)))
}

/// Output activations of one layer.
pub open spec fn layer_out(l: LayerV, x: Seq<i64>) -> Seq<i64> {
    Seq::new(l.biases.len(), |n: int| neuron_out(l.biases[n], l.weights[n], x) as i64)
}

/// Activations leaving layer `k - 1`: the input pushed through the first `k`
/// layers.
pub open spec fn fwd_prefix(m: Seq<LayerV>, x: Seq<i64>, k: int) -> Seq<i64>
    decreases k,
{
    if k <= 0 {
        x
    } else {
        layer_out(m[k - 1], fwd_prefix(m, x, k - 1))
    }
}

/// Output of the whole model on input `x`: the layers applied front to back.
pub open spec fn forward_spec(m: Seq<LayerV>, x: Seq<i64>) -> Seq<i64> {
    fwd_prefix(m, x, m.len() as int)
}

/// Copy a vector of fixed-point values.
pub fn copy_row(v: &Vec<i64>) -> (r: Vec<i64>)
    ensures
        r@ == v@,
{
    let mut r: Vec<i64> = Vec::new();
    let mut i: usize = 0;
    while i < v.len()
        invariant
            0 <= i <= v@.len(),
            r@ == v@.take(i as int),
        decreases v@.len() - i,
    {
        r.push(v[i]);
        proof {
            assert(v@.take(i + 1) =~= v@.take(i as int).push(v@[i as int]));
        }
        i = i + 1;
    }
    proof {
        assert(v@.take(v@.len() as int) =~= v@);
    }
    r
}

/// Saturating fixed-point dot product of two rows of equal length.
fn dot_scaled(w: &Vec<i64>, x: &Vec<i64>) -> (r: i128)
    requires
        w@.len() == x@.len(),
    ensures
        r as int == dot_acc(w@, x@, w@.len() as int),
        -(ACC_LIMIT as int) <= r as int <= ACC_LIMIT as int,
{
    let mut acc: i128 = 0;
    let mut i: usize = 0;
    while i < w.len()
        invariant
            0 <= i <= w@.len(),
            w@.len() == x@.len(),
            acc as int == dot_acc(w@, x@, i as int),
            -(ACC_LIMIT as int) <= acc as int <= ACC_LIMIT as int,
        decreases w@.len() - i,
    {
        let prod = mul_wide(w[i], x[i]);
        proof {
            lemma_i64_product_fits(w@[i as int] as int, x@[i as int] as int);
        }
        acc = clamp_acc(acc + prod);
        i = i + 1;
    }
    acc
}

/// Output of one neuron: bias plus the rescaled dot product, rectified.
fn neuron_forward(bias: i64, w: &Vec<i64>, x: &Vec<i64>) -> (r: i64)
    requires
        w@.len() == x@.len(),
    ensures
        r as int == neuron_out(bias, w@, x@),
        r >= 0,
{
    let dot = dot_scaled(w, x);
    let scaled = div_trunc(dot, SCALE as i128);
    proof {
        lemma_tdiv_bounds(dot as int, SCALE as int);
    }
    let pre = clamp_to_i64(bias as i128 + scaled);
    if pre > 0 {
        pre
    } else {
        0
    }
}

/// Output activations of one layer.
pub fn layer_forward(l: &Layer, x: &Vec<i64>) -> (r: Vec<i64>)
    requires
        layer_wf(l@),
        forall|n: int| 0 <= n < l@.weights.len() ==> (#[trigger] l@.weights[n]).len() == x@.len(),
    ensures
        r@ == layer_out(l@, x@),
{
    let count = l.biases.len();
    let mut r: Vec<i64> = Vec::new();
    let mut n: usize = 0;
    while n < count
        invariant
            0 <= n <= count,
            count == l@.biases.len(),
            layer_wf(l@),
            forall|j: int| 0 <= j < l@.weights.len() ==> (#[trigger] l@.weights[j]).len()
                == x@.len(),
            r@.len() == n,
            forall|j: int| 0 <= j < n ==> r@[j] as int == neuron_out(
                l@.biases[j],
                l@.weights[j],
                x@,
            ),
        decreases count - n,
    {
        proof {
            assert(l@.weights[n as int] == l.weights@[n as int]@);
        }
        let v = neuron_forward(l.biases[n], &l.weights[n], x);
        r.push(v);
        n = n + 1;
    }
    proof {
        assert(r@ =~= layer_out(l@, x@));
    }
    r
}

impl NeuralNetwork {
    /// Build a model from consecutive layer sizes: `layer_sizes[k]` inputs
    /// feed `layer_sizes[k + 1]` neurons. Biases start at zero and every
    /// weight starts at `SCALE / 100` (0.01), as a plain deterministic
    /// initialization.
    pub fn new(layer_sizes: &Vec<usize>, learning_rate: i64) -> (r: Self)
        requires
            layer_sizes@.len() >= 1,
        ensures
            r@.len() == layer_sizes@.len() - 1,
            model_wf(r@),
            dims_ok(r@, layer_sizes@[0] as nat),
            r.learning_rate == learning_rate,
            forall|k: int|
                0 <= k < r@.len() ==> (#[trigger] r@[k]).biases.len() == layer_sizes@[k + 1],
            forall|k: int, n: int|
                0 <= k < r@.len() && 0 <= n < r@[k].biases.len() ==> (#[trigger] r@[k].biases[n])
                    == 0,
            forall|k: int, n: int|
                0 <= k < r@.len() && 0 <= n < r@[k].weights.len() ==> (#[trigger] r@[k].weights[n]).len()
                    == layer_sizes@[k],
            forall|k: int, n: int, i: int|
                0 <= k < r@.len() && 0 <= n < r@[k].weights.len() && 0 <= i
                    < r@[k].weights[n].len() ==> (#[trigger] r@[k].weights[n][i]) == SCALE / 100,
    {
        let mut layers: Vec<Layer> = Vec::new();
        let mut k: usize = 0;
        let count = layer_sizes.len() - 1;
        while k < count
            invariant
                0 <= k <= count,
                count == layer_sizes@.len() - 1,
                layers@.len() == k,
                forall|j: int| 0 <= j < k ==> layer_wf((#[trigger] layers@[j])@),
                forall|j: int|
                    0 <= j < k ==> (#[trigger] layers@[j])@.biases.len() == layer_sizes@[j + 1],
                forall|j: int, n: int|
                    0 <= j < k && 0 <= n < layers@[j]@.biases.len()
                        ==> (#[trigger] layers@[j]@.biases[n]) == 0,
                forall|j: int, n: int|
                    0 <= j < k && 0 <= n < layers@[j]@.weights.len()
                        ==> (#[trigger] layers@[j]@.weights[n]).len() == layer_sizes@[j],
                forall|j: int, n: int, i: int|
                    0 <= j < k && 0 <= n < layers@[j]@.weights.len() && 0 <= i
                        < layers@[j]@.weights[n].len() ==> (#[trigger] layers@[j]@.weights[n][i])
                        == SCALE / 100,
            decreases count - k,
        {
            let input_size = layer_sizes[k];
            let output_size = layer_sizes[k + 1];
            let layer = Layer {
                weights: build_constant_matrix(output_size, input_size, SCALE / 100),
                biases: build_constant_row(output_size, 0),
            };
            layers.push(layer);
            k = k + 1;
        }
        NeuralNetwork { layers, learning_rate }
    }

    /// Run the forward pass: push the input through every layer in order.
    pub fn forward(&self, input: &Vec<i64>) -> (r: Vec<i64>)
        requires
            model_wf(self@),
            dims_ok(self@, input@.len() as nat),
        ensures
            r@ == forward_spec(self@, input@),
    {
        let mut acts = copy_row(input);
        let mut k: usize = 0;
        let count = self.layers.len();
        while k < count
            invariant
                0 <= k <= count,
                count == self@.len(),
                model_wf(self@),
                dims_ok(self@, input@.len() as nat),
                acts@ == fwd_prefix(self@, input@, k as int),
                acts@.len() == act_len(self@, input@.len() as nat, k as int),
            decreases count - k,
        {
            proof {
                assert(self@[k as int] == self.layers@[k as int]@);
            }
            acts = layer_forward(&self.layers[k], &acts);
            k = k + 1;
        }
        acts
    }
}

/// A row holding `len` copies of `value`.
pub fn build_constant_row(len: usize, value: i64) -> (r: Vec<i64>)
    ensures
        r@.len() == len,
        forall|i: int| 0 <= i < len ==> r@[i] == value,
{
    let mut r: Vec<i64> = Vec::new();
    let mut i: usize = 0;
    while i < len
        invariant
            0 <= i <= len,
            r@.len() == i,
            forall|j: int| 0 <= j < i ==> r@[j] == value,
        decreases len - i,
    {
        r.push(value);
        i = i + 1;
    }
    r
}

/// A matrix of `rows` rows, each holding `cols` copies of `value`.
pub fn build_constant_matrix(rows: usize, cols: usize, value: i64) -> (r: Vec<Vec<i64>>)
    ensures
        r@.len() == rows,
        forall|n: int| 0 <= n < rows ==> (#[trigger] r@[n])@.len() == cols,
        forall|n: int, i: int| 0 <= n < rows && 0 <= i < cols ==> (#[trigger] r@[n]@[i]) == value,
{
    let mut r: Vec<Vec<i64>> = Vec::new();
    let mut n: usize = 0;
    while n < rows
        invariant
            0 <= n <= rows,
            r@.len() == n,
            forall|j: int| 0 <= j < n ==> (#[trigger] r@[j])@.len() == cols,
            forall|j: int, i: int| 0 <= j < n && 0 <= i < cols ==> (#[trigger] r@[j]@[i]) == value,
        decreases rows - n,
    {
        r.push(build_constant_row(cols, value));
        n = n + 1;
    }
    r
}

} // verus!
