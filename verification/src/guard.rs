//! Exclusive-access wrapper around the shared model: the one component
//! permitted to mutate model state.
//!
//! `snapshot` (and the borrowing `model`) hand out a read-only view that is
//! always a whole, consistent model state; `apply` takes the guard by `&mut`,
//! so no reader can hold a view while an update is in flight, and its
//! contract describes the update as a single transition of the entire
//! parameter vector — a reader observes either the pre-apply or the
//! post-apply state of every parameter, never a mix.

use crate::fixed::{
    clamp_to_i64, div_trunc, lemma_i64_product_fits, lemma_tdiv_bounds, mul_wide, sat64, tdiv,
    SCALE,
};
use crate::gradient::{layer_shape_matches, shape_matches, GradientSet, LayerGradient};
use crate::neural_network::{
    act_len, copy_row, dims_ok, model_wf, out_len, Layer, LayerV, NeuralNetwork,
};
use vstd::prelude::*;

verus! {

/// One parameter after a gradient step: `param - learning_rate * gradient`,
/// rescaled and saturated.
pub open spec fn step_val(p: i64, gv: i64, lr: i64) -> int {
    sat64(p - tdiv(lr * gv, SCALE as int))
}

/// One layer after a gradient step.
pub open spec fn apply_layer_spec(l: LayerV, g: LayerV, lr: i64) -> LayerV {
    LayerV {
        weights: Seq::new(
            l.weights.len(),
            |n: int|
                Seq::new(
                    l.weights[n].len(),
                    |i: int| step_val(l.weights[n][i], g.weights[n][i], lr) as i64,
                ),
        ),
        biases: Seq::new(l.biases.len(), |n: int| step_val(l.biases[n], g.biases[n], lr) as i64),
    }
}

/// The whole model after a gradient step: every parameter updated together.
pub open spec fn apply_spec(m: Seq<LayerV>, g: Seq<LayerV>, lr: i64) -> Seq<LayerV> {
    Seq::new(m.len(), |k: int| apply_layer_spec(m[k], g[k], lr))
}

/// A gradient step changes values only, never shapes: well-formedness and
/// the dimension chain survive any apply.
pub proof fn lemma_apply_preserves_shape(m: Seq<LayerV>, g: Seq<LayerV>, lr: i64, n: nat)
    ensures
        shape_matches(apply_spec(m, g, lr), m),
        model_wf(m) ==> model_wf(apply_spec(m, g, lr)),
        dims_ok(m, n) <==> dims_ok(apply_spec(m, g, lr), n),
        out_len(apply_spec(m, g, lr), n) == out_len(m, n),
{
    let a = apply_spec(m, g, lr);
    assert(forall|k: int| 0 <= k < a.len() ==> (#[trigger] a[k]).biases.len()
        == m[k].biases.len());
    assert(forall|k: int, r: int|
        0 <= k < a.len() && 0 <= r < a[k].weights.len() ==> (#[trigger] a[k].weights[r]).len()
            == m[k].weights[r].len());
    assert(forall|k: int| 0 <= k < a.len() ==> act_len(a, n, k) == act_len(m, n, k));
    if dims_ok(m, n) {
        assert forall|k: int, r: int|
            0 <= k < a.len() && 0 <= r < a[k].weights.len() implies (#[trigger] a[k].weights[r]).len()
            == act_len(a, n, k) by {
            assert(m[k].weights[r].len() == act_len(m, n, k));
        }
    }
    if dims_ok(a, n) {
        assert forall|k: int, r: int|
            0 <= k < m.len() && 0 <= r < m[k].weights.len() implies (#[trigger] m[k].weights[r]).len()
            == act_len(m, n, k) by {
            assert(a[k].weights[r].len() == act_len(a, n, k));
        }
    }
}

/// One weight row after a gradient step.
fn apply_row(w: &Vec<i64>, g: &Vec<i64>, lr: i64) -> (r: Vec<i64>)
    requires
        w@.len() == g@.len(),
    ensures
        r@.len() == w@.len(),
        forall|i: int| 0 <= i < r@.len() ==> (#[trigger] r@[i]) as int == step_val(
            w@[i],
            g@[i],
            lr,
        ),
{
    let count = w.len();
    let mut r: Vec<i64> = Vec::new();
    let mut i: usize = 0;
    while i < count
        invariant
            0 <= i <= count,
            count == w@.len(),
            count == g@.len(),
            r@.len() == i,
            forall|j: int| 0 <= j < i ==> (#[trigger] r@[j]) as int == step_val(
                w@[j],
                g@[j],
                lr,
            ),
        decreases count - i,
    {
        let prod = mul_wide(lr, g[i]);
        proof {
            lemma_i64_product_fits(lr as int, g@[i as int] as int);
            lemma_tdiv_bounds(prod as int, SCALE as int);
        }
        let v = clamp_to_i64(w[i] as i128 - div_trunc(prod, SCALE as i128));
        r.push(v);
        i = i + 1;
    }
    r
}

/// One layer after a gradient step.
fn apply_layer(l: &Layer, g: &LayerGradient, lr: i64) -> (r: Layer)
    requires
        layer_shape_matches(g@, l@),
    ensures
        r@ == apply_layer_spec(l@, g@, lr),
{
    let biases = apply_row(&l.biases, &g.biases, lr);
    let rows = l.weights.len();
    let mut weights: Vec<Vec<i64>> = Vec::new();
    let mut n: usize = 0;
    while n < rows
        invariant
            0 <= n <= rows,
            rows == l@.weights.len(),
            layer_shape_matches(g@, l@),
            weights@.len() == n,
            forall|j: int| 0 <= j < n ==> (#[trigger] weights@[j])@ == apply_layer_spec(
                l@,
                g@,
                lr,
            ).weights[j],
        decreases rows - n,
    {
        proof {
            assert(l@.weights[n as int] == l.weights@[n as int]@);
            assert(g@.weights[n as int] == g.weights@[n as int]@);
        }
        let row = apply_row(&l.weights[n], &g.weights[n], lr);
        proof {
            assert(row@ =~= apply_layer_spec(l@, g@, lr).weights[n as int]);
        }
        weights.push(row);
        n = n + 1;
    }
    let r = Layer { weights, biases };
    proof {
        assert(r@.biases =~= apply_layer_spec(l@, g@, lr).biases);
        assert(r@.weights =~= apply_layer_spec(l@, g@, lr).weights);
        assert(r@ =~= apply_layer_spec(l@, g@, lr));
    }
    r
}

/// The exclusive-access wrapper: owns the model, hands out consistent
/// read-only snapshots, and is the only path by which model state changes.
pub struct ModelGuard {
    model: NeuralNetwork,
}

impl View for ModelGuard {
    type V = Seq<LayerV>;

    closed spec fn view(&self) -> Seq<LayerV> {
        self.model@
    }
}

impl ModelGuard {
    /// The step-size preference stored on the guarded model.
    pub closed spec fn spec_learning_rate(&self) -> i64 {
        self.model.learning_rate
    }

    /// Take exclusive ownership of the model.
    pub fn new(model: NeuralNetwork) -> (r: Self)
        ensures
            r@ == model@,
            r.spec_learning_rate() == model.learning_rate,
    {
        ModelGuard { model }
    }

    /// Borrow the guarded model read-only: a consistent view of the whole
    /// current state.
    pub fn model(&self) -> (r: &NeuralNetwork)
        ensures
            r@ == self@,
    {
        &self.model
    }

    /// An owned, consistent copy of the whole current model state.
    pub fn snapshot(&self) -> (r: NeuralNetwork)
        ensures
            r@ == self@,
            r.learning_rate == self.spec_learning_rate(),
    {
        let count = self.model.layers.len();
        let mut layers: Vec<Layer> = Vec::new();
        let mut k: usize = 0;
        while k < count
            invariant
                0 <= k <= count,
                count == self@.len(),
                layers@.len() == k,
                forall|j: int| 0 <= j < k ==> (#[trigger] layers@[j])@ == self@[j],
            decreases count - k,
        {
            proof {
                assert(self@[k as int] == self.model.layers@[k as int]@);
            }
            let l = &self.model.layers[k];
            let biases = copy_row(&l.biases);
            let rows = l.weights.len();
            let mut weights: Vec<Vec<i64>> = Vec::new();
            let mut n: usize = 0;
            while n < rows
                invariant
                    0 <= n <= rows,
                    0 <= k < count,
                    count == self@.len(),
                    rows == self@[k as int].weights.len(),
                    l == &self.model.layers[k as int],
                    weights@.len() == n,
                    forall|j: int| 0 <= j < n ==> (#[trigger] weights@[j])@
                        == self@[k as int].weights[j],
                decreases rows - n,
            {
                proof {
                    assert(self@[k as int].weights[n as int] == l.weights@[n as int]@);
                }
                weights.push(copy_row(&l.weights[n]));
                n = n + 1;
            }
            let copied = Layer { weights, biases };
            proof {
                assert(copied@.weights =~= self@[k as int].weights);
                assert(copied@ =~= self@[k as int]);
            }
            layers.push(copied);
            k = k + 1;
        }
        let r = NeuralNetwork { layers, learning_rate: self.model.learning_rate };
        proof {
            assert(r@ =~= self@);
        }
        r
    }

    /// Apply one averaged gradient set: for every parameter,
    /// `param -= learning_rate * gradient` (rescaled, saturating). The whole
    /// update is one transition of the guarded state — callers holding no
    /// view across the call see every layer pre-apply or every layer
    /// post-apply, never a mix.
    pub fn apply(&mut self, gradients: &GradientSet, learning_rate: i64)
        requires
            shape_matches(gradients@, old(self)@),
        ensures
            final(self)@ == apply_spec(old(self)@, gradients@, learning_rate),
    {
        let count = self.model.layers.len();
        let mut layers: Vec<Layer> = Vec::new();
        let mut k: usize = 0;
        while k < count
            invariant
                0 <= k <= count,
                count == self@.len(),
                self == old(self),
                shape_matches(gradients@, self@),
                count == gradients@.len(),
                layers@.len() == k,
                forall|j: int| 0 <= j < k ==> (#[trigger] layers@[j])@ == apply_spec(
                    self@,
                    gradients@,
                    learning_rate,
                )[j],
            decreases count - k,
        {
            proof {
                assert(self@[k as int] == self.model.layers@[k as int]@);
                assert(gradients@[k as int] == gradients.layers@[k as int]@);
                assert(layer_shape_matches(gradients@[k as int], self@[k as int]));
            }
            layers.push(apply_layer(&self.model.layers[k], &gradients.layers[k], learning_rate));
            k = k + 1;
        }
        let lr_field = self.model.learning_rate;
        let ghost before = self@;
        self.model = NeuralNetwork { layers, learning_rate: lr_field };
        proof {
            assert(self@ =~= apply_spec(before, gradients@, learning_rate));
        }
    }
}

} // verus!
