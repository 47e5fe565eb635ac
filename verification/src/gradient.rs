//! Gradient accumulators: a `GradientSet` mirrors the model's parameter
//! shape, holding one fixed-point gradient per weight and per bias. A set is
//! produced per sample, averaged per batch, consumed once by an apply step,
//! then discarded.

use crate::neural_network::{Layer, LayerV};
use vstd::prelude::*;

verus! {

/// Gradients for one layer, in the layer's own shape.
#[derive(Debug, PartialEq)]
pub struct LayerGradient {
    pub weights: Vec<Vec<i64>>,
    pub biases: Vec<i64>,
}

impl View for LayerGradient {
    type V = LayerV;

    open spec fn view(&self) -> LayerV {
        LayerV { weights: self.weights@.map_values(|v: Vec<i64>| v@), biases: self.biases@ }
    }
}

/// Per-layer gradient accumulators for a whole model.
#[derive(Debug, PartialEq)]
pub struct GradientSet {
    pub layers: Vec<LayerGradient>,
}

impl View for GradientSet {
    type V = Seq<LayerV>;

    open spec fn view(&self) -> Seq<LayerV> {
        self.layers@.map_values(|l: LayerGradient| l@)
    }
}

/// Two layer shapes agree entry for entry.
pub open spec fn layer_shape_matches(g: LayerV, l: LayerV) -> bool {
    &&& g.biases.len() == l.biases.len()
    &&& g.weights.len() == l.weights.len()
    &&& forall|n: int|
        0 <= n < g.weights.len() ==> (#[trigger] g.weights[n]).len() == l.weights[n].len()
}

/// A gradient set is shaped exactly like the model it was computed for.
pub open spec fn shape_matches(g: Seq<LayerV>, m: Seq<LayerV>) -> bool {
    g.len() == m.len() && forall|k: int|
        0 <= k < g.len() ==> layer_shape_matches(#[trigger] g[k], m[k])
}

/// Shape agreement is symmetric.
pub proof fn lemma_shape_matches_sym(a: Seq<LayerV>, b: Seq<LayerV>)
    requires
        shape_matches(a, b),
    ensures
        shape_matches(b, a),
{
    assert forall|k: int| 0 <= k < b.len() implies layer_shape_matches(#[trigger] b[k], a[k]) by {
        assert(layer_shape_matches(a[k], b[k]));
    }
}

/// Shape agreement is transitive.
pub proof fn lemma_shape_matches_trans(a: Seq<LayerV>, b: Seq<LayerV>, c: Seq<LayerV>)
    requires
        shape_matches(a, b),
        shape_matches(b, c),
    ensures
        shape_matches(a, c),
{
    assert forall|k: int| 0 <= k < a.len() implies layer_shape_matches(#[trigger] a[k], c[k]) by {
        assert(layer_shape_matches(a[k], b[k]));
        assert(layer_shape_matches(b[k], c[k]));
    }
}

/// A layer of zero gradients shaped like `l`.
pub open spec fn zero_of_layer(l: LayerV) -> LayerV {
    LayerV {
        weights: Seq::new(l.weights.len(), |n: int| Seq::new(l.weights[n].len(), |i: int| 0i64)),
        biases: Seq::new(l.biases.len(), |n: int| 0i64),
    }
}

/// Build a zero gradient layer shaped like the given layer.
pub fn zero_like_layer(l: &Layer) -> (r: LayerGradient)
    ensures
        r@ == zero_of_layer(l@),
{
    let rows = l.weights.len();
    let mut weights: Vec<Vec<i64>> = Vec::new();
    let mut n: usize = 0;
    while n < rows
        invariant
            0 <= n <= rows,
            rows == l@.weights.len(),
            weights@.len() == n,
            forall|j: int|
                0 <= j < n ==> (#[trigger] weights@[j])@ == Seq::new(
                    l@.weights[j].len(),
                    |i: int| 0i64,
                ),
        decreases rows - n,
    {
        proof {
            assert(l@.weights[n as int] == l.weights@[n as int]@);
        }
        let row = crate::neural_network::build_constant_row(l.weights[n].len(), 0);
        proof {
            assert(row@ =~= Seq::new(l@.weights[n as int].len(), |i: int| 0i64));
        }
        weights.push(row);
        n = n + 1;
    }
    let biases = crate::neural_network::build_constant_row(l.biases.len(), 0);
    let r = LayerGradient { weights, biases };
    proof {
        assert(r@.biases =~= zero_of_layer(l@).biases);
        assert(r@.weights =~= zero_of_layer(l@).weights);
        assert(r@ =~= zero_of_layer(l@));
    }
    r
}

} // verus!
