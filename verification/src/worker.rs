//! Per-sample gradient and loss computation against a read-only model
//! snapshot. Stateless: safe to run concurrently from many workers against
//! the same snapshot.
//!
//! The gradient is the delta rule on the output layer of the squared-error
//! loss: each output neuron's error, gated by the rectifier (a neuron that
//! did not fire contributes nothing), scaled by the activation feeding each
//! weight. Earlier layers receive zero gradients. A sample whose input or
//! target length does not fit the model is rejected rather than computed.

use crate::fixed::{
    clamp_acc, clamp_to_i64, div_trunc, lemma_i64_product_fits, lemma_tdiv_bounds, mul_wide,
    sat64, sat_acc, tdiv, ACC_LIMIT, SCALE,
};
use crate::gradient::{shape_matches, zero_like_layer, zero_of_layer, GradientSet, LayerGradient};
use crate::neural_network::{
    act_len, copy_row, dims_ok, forward_spec, fwd_prefix, layer_forward, model_wf, out_len,
    LayerV, NeuralNetwork,
};
use vstd::prelude::*;

verus! {

/// A sample fits the model: its input feeds the first layer and its target
/// has the model's output length.
pub open spec fn sample_ok(m: Seq<LayerV>, x: Seq<i64>, t: Seq<i64>) -> bool {
    dims_ok(m, x.len()) && t.len() == out_len(m, x.len())
}

/// Activations entering the model's last layer.
pub open spec fn last_in(m: Seq<LayerV>, x: Seq<i64>) -> Seq<i64> {
    fwd_prefix(m, x, m.len() - 1)
}

/// Error of output neuron `n`: prediction minus target, saturated.
pub open spec fn sample_err(m: Seq<LayerV>, x: Seq<i64>, t: Seq<i64>, n: int) -> int {
    sat64(forward_spec(m, x)[n] - t[n])
}

/// Bias gradient of output neuron `n`: the error where the neuron fired,
/// zero where the rectifier was closed.
pub open spec fn sample_gb(m: Seq<LayerV>, x: Seq<i64>, t: Seq<i64>, n: int) -> int {
    if forward_spec(m, x)[n] > 0 {
        sample_err(m, x, t, n)
    } else {
        0
    }
}

/// Weight gradient of output neuron `n`, incoming index `i`: the error times
/// the activation that fed the weight, rescaled.
pub open spec fn sample_gw(m: Seq<LayerV>, x: Seq<i64>, t: Seq<i64>, n: int, i: int) -> int {
    if forward_spec(m, x)[n] > 0 {
        sat64(tdiv(sample_err(m, x, t, n) * last_in(m, x)[i], SCALE as int))
    } else {
        0
    }
}

/// The whole per-sample gradient set: zeros everywhere except the last
/// layer's delta-rule entries.
pub open spec fn sample_grad(m: Seq<LayerV>, x: Seq<i64>, t: Seq<i64>) -> Seq<LayerV> {
    Seq::new(
        m.len(),
        |k: int|
            if k == m.len() - 1 {
                LayerV {
                    weights: Seq::new(
                        m[k].weights.len(),
                        |n: int|
                            Seq::new(
                                m[k].weights[n].len(),
                                |i: int| sample_gw(m, x, t, n, i) as i64,
                            ),
                    ),
                    biases: Seq::new(m[k].biases.len(), |n: int| sample_gb(m, x, t, n) as i64),
                }
            } else {
                zero_of_layer(m[k])
            },
    )
}

/// Saturating sum of squared output errors over the first `k` outputs.
pub open spec fn sq_err_acc(out: Seq<i64>, t: Seq<i64>, k: int) -> int
    decreases k,
{
    if k <= 0 {
        0
    } else {
        sat_acc(sq_err_acc(out, t, k - 1) + sat64(out[k - 1] - t[k - 1]) * sat64(
            out[k - 1] - t[k - 1],
        ))
    }
}

/// Squared-error loss of the model on one sample, rescaled to fixed-point
/// units: never negative.
pub open spec fn loss_spec(m: Seq<LayerV>, x: Seq<i64>, t: Seq<i64>) -> int {
    sat64(tdiv(sq_err_acc(forward_spec(m, x), t, t.len() as int), SCALE as int))
}

/// The squared-error accumulator is non-negative and within `ACC_LIMIT`.
pub proof fn lemma_sq_err_acc_range(out: Seq<i64>, t: Seq<i64>, k: int)
    ensures
        0 <= sq_err_acc(out, t, k) <= ACC_LIMIT as int,
    decreases k,
{
    if k <= 0 {
    } else {
        lemma_sq_err_acc_range(out, t, k - 1);
        let e = sat64(out[k - 1] - t[k - 1]);
        assert(e * e >= 0) by (nonlinear_arith);
    }
}

/// The per-sample loss is a non-negative `i64` value.
pub proof fn lemma_loss_nonneg(m: Seq<LayerV>, x: Seq<i64>, t: Seq<i64>)
    ensures
        0 <= loss_spec(m, x, t) <= i64::MAX,
{
    lemma_sq_err_acc_range(forward_spec(m, x), t, t.len() as int);
    lemma_tdiv_bounds(sq_err_acc(forward_spec(m, x), t, t.len() as int), SCALE as int);
}

/// Check that an input of length `n` flows through every layer's weight rows.
fn check_dims(model: &NeuralNetwork, n: usize) -> (r: bool)
    ensures
        r == dims_ok(model@, n as nat),
{
    let count = model.layers.len();
    let mut k: usize = 0;
    while k < count
        invariant
            0 <= k <= count,
            count == model@.len(),
            forall|j: int, rr: int|
                0 <= j < k && 0 <= rr < model@[j].weights.len()
                    ==> (#[trigger] model@[j].weights[rr]).len() == act_len(model@, n as nat, j),
        decreases count - k,
    {
        let expected: usize = if k == 0 {
            n
        } else {
            model.layers[k - 1].biases.len()
        };
        let rows = model.layers[k].weights.len();
        let mut rr: usize = 0;
        while rr < rows
            invariant
                0 <= rr <= rows,
                0 <= k < count,
                count == model@.len(),
                rows == model@[k as int].weights.len(),
                expected as nat == act_len(model@, n as nat, k as int),
                forall|j: int|
                    0 <= j < rr ==> (#[trigger] model@[k as int].weights[j]).len() == expected,
            decreases rows - rr,
        {
            proof {
                assert(model@[k as int].weights[rr as int] == model.layers@[k as int]@.weights[rr as int]);
            }
            if model.layers[k].weights[rr].len() != expected {
                proof {
                    assert(model@[k as int].weights[rr as int].len() != act_len(
                        model@,
                        n as nat,
                        k as int,
                    ));
                }
                return false;
            }
            rr = rr + 1;
        }
        k = k + 1;
    }
    true
}

/// Whether a sample of the given input and target lengths fits the model.
pub fn sample_fits(model: &NeuralNetwork, input_len: usize, target_len: usize) -> (r: bool)
    ensures
        r == (dims_ok(model@, input_len as nat) && target_len == out_len(
            model@,
            input_len as nat,
        )),
{
    let count = model.layers.len();
    if !check_dims(model, input_len) {
        return false;
    }
    let expected_out: usize = if count == 0 {
        input_len
    } else {
        model.layers[count - 1].biases.len()
    };
    target_len == expected_out
}

/// Stateless per-sample gradient computation, run against a read-only model
/// snapshot.
pub struct GradientWorker;

impl GradientWorker {
    /// Compute the gradient set of one sample, or `None` when the sample's
    /// dimensions do not fit the model.
    pub fn compute(model: &NeuralNetwork, input: &Vec<i64>, target: &Vec<i64>) -> (r: Option<
        GradientSet,
    >)
        requires
            model_wf(model@),
        ensures
            r is Some <==> sample_ok(model@, input@, target@),
            r matches Some(g) ==> g@ == sample_grad(model@, input@, target@) && shape_matches(
                g@,
                model@,
            ),
    {
        let count = model.layers.len();
        if !sample_fits(model, input.len(), target.len()) {
            return None;
        }
        if count == 0 {
            let g = GradientSet { layers: Vec::new() };
            proof {
                assert(g@ =~= sample_grad(model@, input@, target@));
            }
            return Some(g);
        }
        // Forward pass through all but the last layer: the activations that
        // feed the output layer.
        let mut acts = copy_row(input);
        let mut k: usize = 0;
        while k < count - 1
            invariant
                0 <= k <= count - 1,
                count == model@.len(),
                count >= 1,
                model_wf(model@),
                dims_ok(model@, input@.len() as nat),
                acts@ == fwd_prefix(model@, input@, k as int),
                acts@.len() == act_len(model@, input@.len() as nat, k as int),
            decreases count - 1 - k,
        {
            proof {
                assert(model@[k as int] == model.layers@[k as int]@);
            }
            acts = layer_forward(&model.layers[k], &acts);
            k = k + 1;
        }
        proof {
            assert(acts@ == last_in(model@, input@));
            assert(model@[count - 1] == model.layers@[count - 1]@);
        }
        let out = layer_forward(&model.layers[count - 1], &acts);
        proof {
            assert(out@ == fwd_prefix(model@, input@, count as int));
            assert(out@ == forward_spec(model@, input@));
        }
        // Zero gradients for every layer before the output layer.
        let mut glayers: Vec<LayerGradient> = Vec::new();
        let mut k2: usize = 0;
        while k2 < count - 1
            invariant
                0 <= k2 <= count - 1,
                count == model@.len(),
                count >= 1,
                glayers@.len() == k2,
                forall|j: int| 0 <= j < k2 ==> (#[trigger] glayers@[j])@ == zero_of_layer(
                    model@[j],
                ),
        decreases count - 1 - k2,
        {
            proof {
                assert(model@[k2 as int] == model.layers@[k2 as int]@);
            }
            glayers.push(zero_like_layer(&model.layers[k2]));
            k2 = k2 + 1;
        }
        // Delta-rule entries for the output layer.
        let ghost m = model@;
        let ghost x = input@;
        let ghost t = target@;
        let outs = out.len();
        let mut gb: Vec<i64> = Vec::new();
        let mut gw: Vec<Vec<i64>> = Vec::new();
        let mut n: usize = 0;
        while n < outs
            invariant
                0 <= n <= outs,
                count == m.len(),
                count >= 1,
                model_wf(m),
                dims_ok(m, x.len() as nat),
                t.len() == out_len(m, x.len() as nat),
                m == model@ && x == input@ && t == target@,
                out@ == forward_spec(m, x),
                outs == out@.len(),
                outs == m[count - 1].biases.len(),
                outs == t.len(),
                acts@ == last_in(m, x),
                acts@.len() == act_len(m, x.len() as nat, count - 1),
                gb@.len() == n,
                gw@.len() == n,
                forall|j: int| 0 <= j < n ==> gb@[j] as int == sample_gb(m, x, t, j),
                forall|j: int| 0 <= j < n ==> (#[trigger] gw@[j])@.len() == m[count
                    - 1].weights[j].len(),
                forall|j: int, i: int|
                    0 <= j < n && 0 <= i < gw@[j]@.len() ==> (#[trigger] gw@[j]@[i]) as int
                        == sample_gw(m, x, t, j, i),
            decreases outs - n,
        {
            let e = clamp_to_i64(out[n] as i128 - target[n] as i128);
            proof {
                assert(e as int == sample_err(m, x, t, n as int));
                assert(m[count - 1].weights[n as int].len() == act_len(m, x.len() as nat, count
                    - 1));
                assert(model@[count - 1].weights[n as int] == model.layers@[count
                    - 1]@.weights[n as int]);
            }
            let cols = acts.len();
            if out[n] > 0 {
                let mut row: Vec<i64> = Vec::new();
                let mut i: usize = 0;
                while i < cols
                    invariant
                        0 <= i <= cols,
                        0 <= n < outs,
                        cols == acts@.len(),
                        acts@ == last_in(m, x),
                        out@ == forward_spec(m, x),
                        outs == out@.len(),
                        out@[n as int] > 0,
                        e as int == sample_err(m, x, t, n as int),
                        row@.len() == i,
                        forall|j: int| 0 <= j < i ==> row@[j] as int == sample_gw(
                            m,
                            x,
                            t,
                            n as int,
                            j,
                        ),
                    decreases cols - i,
                {
                    let prod = mul_wide(e, acts[i]);
                    proof {
                        lemma_i64_product_fits(e as int, acts@[i as int] as int);
                        lemma_tdiv_bounds(prod as int, SCALE as int);
                    }
                    let v = clamp_to_i64(div_trunc(prod, SCALE as i128));
                    row.push(v);
                    i = i + 1;
                }
                gb.push(e);
                gw.push(row);
            } else {
                let row = crate::neural_network::build_constant_row(cols, 0);
                gb.push(0);
                gw.push(row);
            }
            n = n + 1;
        }
        let last = LayerGradient { weights: gw, biases: gb };
        glayers.push(last);
        let g = GradientSet { layers: glayers };
        proof {
            let gs = sample_grad(m, x, t);
            assert(g@.len() == gs.len());
            assert forall|k3: int| 0 <= k3 < g@.len() implies g@[k3] == gs[k3] by {
                if k3 < count - 1 {
                    assert(g@[k3] == zero_of_layer(m[k3]));
                } else {
                    assert(g@[k3].biases =~= gs[k3].biases);
                    assert forall|j: int| 0 <= j < g@[k3].weights.len() implies (#[trigger] g@[
                    k3].weights[j]) == gs[k3].weights[j] by {
                        assert(g@[k3].weights[j] =~= gs[k3].weights[j]);
                    }
                    assert(g@[k3].weights =~= gs[k3].weights);
                    assert(g@[k3] =~= gs[k3]);
                }
            }
            assert(g@ =~= gs);
        }
        Some(g)
    }
}

/// Squared-error loss of the model on one sample.
pub fn sample_loss(model: &NeuralNetwork, input: &Vec<i64>, target: &Vec<i64>) -> (r: i64)
    requires
        model_wf(model@),
        sample_ok(model@, input@, target@),
    ensures
        r as int == loss_spec(model@, input@, target@),
        r >= 0,
{
    let out = model.forward(input);
    let ghost m = model@;
    let ghost x = input@;
    let ghost t = target@;
    let count = target.len();
    proof {
        assert(out@.len() == out_len(m, x.len() as nat));
    }
    let mut acc: i128 = 0;
    let mut k: usize = 0;
    while k < count
        invariant
            0 <= k <= count,
            out@ == forward_spec(m, x),
            count == t.len(),
            count <= out@.len(),
            t == target@,
            out_len(m, x.len() as nat) == out@.len(),
            acc as int == sq_err_acc(out@, t, k as int),
            0 <= acc as int <= ACC_LIMIT as int,
        decreases count - k,
    {
        let e = clamp_to_i64(out[k] as i128 - target[k] as i128);
        let sq = mul_wide(e, e);
        proof {
            lemma_i64_product_fits(e as int, e as int);
            assert((e as int) * (e as int) >= 0) by (nonlinear_arith);
        }
        acc = clamp_acc(acc + sq);
        k = k + 1;
    }
    proof {
        lemma_tdiv_bounds(acc as int, SCALE as int);
    }
    clamp_to_i64(div_trunc(acc, SCALE as i128))
}

} // verus!
