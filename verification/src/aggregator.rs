//! Reduction of a batch's per-sample gradient sets into one batch-mean set:
//! for every layer, weight index and bias index, the result is the arithmetic
//! mean (sum divided by count, rounded toward zero) of that entry across all
//! samples — mini-batch gradient descent semantics, a mean and not a sum.
//!
//! An empty batch (every sample failed) is reported as failed rather than
//! silently averaged to a zero update.

use crate::fixed::{lemma_mean_seq_uniform, mean_i64, mean_seq};
use crate::gradient::{layer_shape_matches, shape_matches, GradientSet, LayerGradient};
use crate::neural_network::LayerV;
use vstd::prelude::*;

verus! {

/// Views of a sequence of gradient sets.
pub open spec fn set_views(sets: Seq<GradientSet>) -> Seq<Seq<LayerV>> {
    sets.map_values(|s: GradientSet| s@)
}

/// The column of bias gradients at layer `k`, neuron `n`, across all sets.
pub open spec fn project_bias(gs: Seq<Seq<LayerV>>, k: int, n: int) -> Seq<i64> {
    Seq::new(gs.len(), |j: int| gs[j][k].biases[n])
}

/// The column of weight gradients at layer `k`, neuron `n`, index `i`.
pub open spec fn project_weight(gs: Seq<Seq<LayerV>>, k: int, n: int, i: int) -> Seq<i64> {
    Seq::new(gs.len(), |j: int| gs[j][k].weights[n][i])
}

/// Entry-wise arithmetic mean of a non-empty collection of gradient sets,
/// shaped like its first element.
pub open spec fn mean_grads(gs: Seq<Seq<LayerV>>) -> Seq<LayerV>
    recommends
        gs.len() >= 1,
{
    Seq::new(
        gs[0].len(),
        |k: int|
            LayerV {
                weights: Seq::new(
                    gs[0][k].weights.len(),
                    |n: int|
                        Seq::new(
                            gs[0][k].weights[n].len(),
                            |i: int| mean_seq(project_weight(gs, k, n, i)) as i64,
                        ),
                ),
                biases: Seq::new(
                    gs[0][k].biases.len(),
                    |n: int| mean_seq(project_bias(gs, k, n)) as i64,
                ),
            },
    )
}

/// All gradient sets in the collection share one shape.
pub open spec fn all_same_shape(gs: Seq<Seq<LayerV>>) -> bool {
    forall|j: int| 0 <= j < gs.len() ==> shape_matches(#[trigger] gs[j], gs[0])
}

/// The mean of identical gradient sets is that set, unchanged: averaging is
/// idempotent under uniform input.
pub proof fn lemma_mean_grads_uniform(gs: Seq<Seq<LayerV>>, g: Seq<LayerV>)
    requires
        gs.len() >= 1,
        forall|j: int| 0 <= j < gs.len() ==> gs[j] == g,
    ensures
        mean_grads(gs) == g,
{
    assert(gs[0] == g);
    let mg = mean_grads(gs);
    assert forall|k: int| 0 <= k < mg.len() implies mg[k] == g[k] by {
        assert forall|n: int| 0 <= n < g[k].biases.len() implies mg[k].biases[n] == g[k].biases[n] by {
            assert(forall|j: int| 0 <= j < gs.len() ==> project_bias(gs, k, n)[j] == g[k].biases[n]);
            lemma_mean_seq_uniform(project_bias(gs, k, n), g[k].biases[n]);
        }
        assert(mg[k].biases =~= g[k].biases);
        assert forall|n: int| 0 <= n < g[k].weights.len() implies mg[k].weights[n]
            == g[k].weights[n] by {
            assert forall|i: int| 0 <= i < g[k].weights[n].len() implies mg[k].weights[n][i] == g[
            k].weights[n][i] by {
                assert(forall|j: int|
                    0 <= j < gs.len() ==> project_weight(gs, k, n, i)[j] == g[k].weights[n][i]);
                lemma_mean_seq_uniform(project_weight(gs, k, n, i), g[k].weights[n][i]);
            }
            assert(mg[k].weights[n] =~= g[k].weights[n]);
        }
        assert(mg[k].weights =~= g[k].weights);
        assert(mg[k] =~= g[k]);
    }
    assert(mg =~= g);
}

/// Mean of one bias-gradient column.
fn mean_bias(sets: &Vec<GradientSet>, k: usize, n: usize) -> (r: i64)
    requires
        sets@.len() >= 1,
        forall|j: int|
            0 <= j < sets@.len() ==> k < (#[trigger] sets@[j])@.len() && n
                < sets@[j]@[k as int].biases.len(),
    ensures
        r as int == mean_seq(project_bias(set_views(sets@), k as int, n as int)),
{
    let count = sets.len();
    let mut col: Vec<i64> = Vec::new();
    let mut j: usize = 0;
    while j < count
        invariant
            0 <= j <= count,
            count == sets@.len(),
            forall|j2: int|
                0 <= j2 < count ==> k < (#[trigger] sets@[j2])@.len() && n
                    < sets@[j2]@[k as int].biases.len(),
            col@.len() == j,
            forall|j2: int| 0 <= j2 < j ==> col@[j2] == sets@[j2]@[k as int].biases[n as int],
        decreases count - j,
    {
        proof {
            assert(sets@[j as int]@[k as int] == sets@[j as int].layers@[k as int]@);
        }
        col.push(sets[j].layers[k].biases[n]);
        j = j + 1;
    }
    proof {
        assert(col@ =~= project_bias(set_views(sets@), k as int, n as int));
    }
    mean_i64(&col)
}

/// Mean of one weight-gradient column.
fn mean_weight(sets: &Vec<GradientSet>, k: usize, n: usize, i: usize) -> (r: i64)
    requires
        sets@.len() >= 1,
        forall|j: int|
            0 <= j < sets@.len() ==> k < (#[trigger] sets@[j])@.len() && n
                < sets@[j]@[k as int].weights.len() && i < sets@[j]@[k as int].weights[n as int].len(),
    ensures
        r as int == mean_seq(project_weight(set_views(sets@), k as int, n as int, i as int)),
{
    let count = sets.len();
    let mut col: Vec<i64> = Vec::new();
    let mut j: usize = 0;
    while j < count
        invariant
            0 <= j <= count,
            count == sets@.len(),
            forall|j2: int|
                0 <= j2 < count ==> k < (#[trigger] sets@[j2])@.len() && n
                    < sets@[j2]@[k as int].weights.len() && i
                    < sets@[j2]@[k as int].weights[n as int].len(),
            col@.len() == j,
            forall|j2: int|
                0 <= j2 < j ==> col@[j2] == sets@[j2]@[k as int].weights[n as int][i as int],
        decreases count - j,
    {
        proof {
            assert(sets@[j as int]@[k as int] == sets@[j as int].layers@[k as int]@);
            assert(sets@[j as int]@[k as int].weights[n as int] == sets@[j as int].layers@[k as int].weights@[n as int]@);
        }
        col.push(sets[j].layers[k].weights[n][i]);
        j = j + 1;
    }
    proof {
        assert(col@ =~= project_weight(set_views(sets@), k as int, n as int, i as int));
    }
    mean_i64(&col)
}

/// Reduces a batch's per-sample gradient sets into one batch-mean set.
pub struct GradientAggregator;

impl GradientAggregator {
    /// Entry-wise arithmetic mean of the given gradient sets; `None` when the
    /// batch is empty (every sample failed), so that a failed batch is never
    /// mistaken for a zero update.
    pub fn average(sets: &Vec<GradientSet>) -> (r: Option<GradientSet>)
        requires
            all_same_shape(set_views(sets@)),
        ensures
            r is Some <==> sets@.len() >= 1,
            r matches Some(g) ==> g@ == mean_grads(set_views(sets@)) && shape_matches(
                g@,
                sets@[0]@,
            ),
    {
        let count = sets.len();
        if count == 0 {
            return None;
        }
        let ghost gs = set_views(sets@);
        proof {
            assert(gs[0] == sets@[0]@);
        }
        let layer_count = sets[0].layers.len();
        let mut out_layers: Vec<LayerGradient> = Vec::new();
        let mut k: usize = 0;
        while k < layer_count
            invariant
                0 <= k <= layer_count,
                count == sets@.len(),
                count >= 1,
                gs == set_views(sets@),
                all_same_shape(gs),
                layer_count == gs[0].len(),
                out_layers@.len() == k,
                forall|k2: int| 0 <= k2 < k ==> (#[trigger] out_layers@[k2])@ == mean_grads(gs)[k2],
            decreases layer_count - k,
        {
            proof {
                assert(sets@[0]@[k as int] == sets@[0].layers@[k as int]@);
                assert forall|j: int| 0 <= j < count implies k < (#[trigger] sets@[j])@.len()
                    && sets@[j]@[k as int].biases.len() == gs[0][k as int].biases.len()
                    && sets@[j]@[k as int].weights.len() == gs[0][k as int].weights.len()
                    && (forall|n2: int|
                        0 <= n2 < gs[0][k as int].weights.len()
                            ==> (#[trigger] sets@[j]@[k as int].weights[n2]).len()
                            == gs[0][k as int].weights[n2].len()) by {
                    assert(shape_matches(gs[j], gs[0]));
                    assert(layer_shape_matches(gs[j][k as int], gs[0][k as int]));
                }
            }
            let bias_len = sets[0].layers[k].biases.len();
            let mut biases: Vec<i64> = Vec::new();
            let mut n: usize = 0;
            while n < bias_len
                invariant
                    0 <= n <= bias_len,
                    count == sets@.len(),
                    count >= 1,
                    gs == set_views(sets@),
                    0 <= k < gs[0].len(),
                    bias_len == gs[0][k as int].biases.len(),
                    forall|j: int|
                        0 <= j < count ==> k < (#[trigger] sets@[j])@.len()
                            && sets@[j]@[k as int].biases.len() == bias_len,
                    biases@.len() == n,
                    forall|n2: int|
                        0 <= n2 < n ==> biases@[n2] as int == mean_seq(
                            project_bias(gs, k as int, n2),
                        ),
                decreases bias_len - n,
            {
                let b = mean_bias(sets, k, n);
                biases.push(b);
                n = n + 1;
            }
            let row_count = sets[0].layers[k].weights.len();
            let mut weights: Vec<Vec<i64>> = Vec::new();
            let mut n2: usize = 0;
            while n2 < row_count
                invariant
                    0 <= n2 <= row_count,
                    count == sets@.len(),
                    count >= 1,
                    gs == set_views(sets@),
                    0 <= k < gs[0].len(),
                    row_count == gs[0][k as int].weights.len(),
                    forall|j: int|
                        0 <= j < count ==> k < (#[trigger] sets@[j])@.len()
                            && sets@[j]@[k as int].weights.len() == row_count
                            && (forall|n3: int|
                            0 <= n3 < row_count
                                ==> (#[trigger] sets@[j]@[k as int].weights[n3]).len()
                                == gs[0][k as int].weights[n3].len()),
                    weights@.len() == n2,
                    forall|n3: int|
                        0 <= n3 < n2 ==> (#[trigger] weights@[n3])@.len()
                            == gs[0][k as int].weights[n3].len(),
                    forall|n3: int, i: int|
                        0 <= n3 < n2 && 0 <= i < weights@[n3]@.len() ==> (#[trigger] weights@[n3]@[i]) as int
                            == mean_seq(project_weight(gs, k as int, n3, i)),
                decreases row_count - n2,
            {
                proof {
                    assert(sets@[0]@[k as int].weights[n2 as int] == sets@[0].layers@[k as int].weights@[n2 as int]@);
                }
                let row_len = sets[0].layers[k].weights[n2].len();
                let mut row: Vec<i64> = Vec::new();
                let mut i: usize = 0;
                while i < row_len
                    invariant
                        0 <= i <= row_len,
                        count == sets@.len(),
                        count >= 1,
                        gs == set_views(sets@),
                        0 <= k < gs[0].len(),
                        0 <= n2 < gs[0][k as int].weights.len(),
                        row_len == gs[0][k as int].weights[n2 as int].len(),
                        forall|j: int|
                            0 <= j < count ==> k < (#[trigger] sets@[j])@.len() && n2
                                < sets@[j]@[k as int].weights.len() && row_len
                                == sets@[j]@[k as int].weights[n2 as int].len(),
                        row@.len() == i,
                        forall|i2: int|
                            0 <= i2 < i ==> row@[i2] as int == mean_seq(
                                project_weight(gs, k as int, n2 as int, i2),
                            ),
                    decreases row_len - i,
                {
                    let w = mean_weight(sets, k, n2, i);
                    row.push(w);
                    i = i + 1;
                }
                weights.push(row);
                n2 = n2 + 1;
            }
            let lg = LayerGradient { weights, biases };
            proof {
                assert(lg@.biases =~= mean_grads(gs)[k as int].biases);
                assert forall|n3: int| 0 <= n3 < lg@.weights.len() implies (#[trigger] lg@.weights[
                n3]) == mean_grads(gs)[k as int].weights[n3] by {
                    assert(lg@.weights[n3] =~= mean_grads(gs)[k as int].weights[n3]);
                }
                assert(lg@.weights =~= mean_grads(gs)[k as int].weights);
                assert(lg@ =~= mean_grads(gs)[k as int]);
            }
            out_layers.push(lg);
            k = k + 1;
        }
        let g = GradientSet { layers: out_layers };
        proof {
            assert(g@ =~= mean_grads(gs));
            assert forall|k2: int| 0 <= k2 < g@.len() implies layer_shape_matches(
                #[trigger] g@[k2],
                sets@[0]@[k2],
            ) by {
                assert(g@[k2] == mean_grads(gs)[k2]);
            }
        }
        Some(g)
    }
}

} // verus!
