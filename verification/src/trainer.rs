//! The training orchestrator: validates the dataset, partitions it into
//! batches, computes per-sample gradients against a read-only snapshot,
//! averages each batch, applies updates through the exclusive-access guard,
//! aggregates epoch losses, and folds a final evaluation pass into the
//! metrics.
//!
//! Batches are processed and applied strictly in submission order — the
//! reproducible serialization of applies — so the whole run is a function of
//! the initial model, the configuration and the dataset (stated by the
//! `run_epochs` spec below); only the elapsed-time field depends on the
//! clock. `num_threads` bounds the worker pool of an embedding application
//! that fans batches out concurrently; it does not change what the run
//! computes.

use crate::aggregator::{mean_grads, set_views, GradientAggregator};
use crate::clock::{clock_now, duration_nanos, elapsed_since, nanos_to_u64};
use crate::dataset::{dataset_valid, Dataset, DatasetV};
use crate::fixed::{
    clamp_to_i64, div_trunc, lemma_mean_seq_in_range, lemma_mean_seq_nonneg, lemma_tdiv_bounds,
    lemma_tdiv_exact, mean_i64, mean_seq, tdiv, SCALE,
};
use crate::gradient::{
    lemma_shape_matches_sym, lemma_shape_matches_trans, shape_matches, GradientSet,
};
use crate::guard::{apply_spec, lemma_apply_preserves_shape, ModelGuard};
use crate::metrics::{MetricsCollector, TrainingMetrics};
use crate::neural_network::{model_wf, LayerV, NeuralNetwork};
use crate::scheduler::{batch_end, batch_start, spec_batch_count, Batch, BatchScheduler};
use crate::worker::{
    lemma_loss_nonneg, loss_spec, sample_fits, sample_grad, sample_loss, sample_ok,
    GradientWorker,
};
use vstd::arithmetic::div_mod::lemma_div_is_ordered;
use vstd::arithmetic::mul::lemma_mul_inequality;
use vstd::prelude::*;

verus! {

/// Default batch size.
pub const DEFAULT_BATCH_SIZE: usize = 32;

/// Default number of epochs.
pub const DEFAULT_EPOCHS: usize = 10;

/// Default learning rate: 0.01 in fixed-point units (`SCALE` is 1_000_000).
pub const DEFAULT_LEARNING_RATE: i64 = 10_000;

/// Default validation split: 0.2 in fixed-point units.
pub const DEFAULT_VALIDATION_SPLIT: i64 = 200_000;

/// Relies on num_cpus::get: the number of logical CPUs of the current
/// system, which is always at least 1. Used only to pick the default worker
/// count.
#[verifier::external_body]
fn detected_cpu_count() -> (r: usize)
    ensures
        r >= 1,
{
    num_cpus::get()
}

/// Caller-supplied training configuration. `learning_rate` and
/// `validation_split` are fixed-point fractions of `SCALE`; how the split
/// partitions held-out data is the evaluation collaborator's policy, not
/// decided here.
#[derive(Clone, Copy, Debug, PartialEq, Eq, Structural)]
pub struct TrainingConfig {
    pub batch_size: usize,
    pub epochs: usize,
    pub num_threads: usize,
    pub learning_rate: i64,
    pub validation_split: i64,
}

/// The configuration values under which training is defined.
pub open spec fn config_wf(c: TrainingConfig) -> bool {
    &&& c.batch_size >= 1
    &&& c.num_threads >= 1
    &&& c.learning_rate >= 1
    &&& 0 <= c.validation_split < SCALE
}

impl Default for TrainingConfig {
    /// Batches of 32, 10 epochs, one worker per detected CPU, learning rate
    /// 0.01, a fifth of the data held out.
    fn default() -> (r: Self)
        ensures
            r.batch_size == DEFAULT_BATCH_SIZE,
            r.epochs == DEFAULT_EPOCHS,
            r.num_threads >= 1,
            r.learning_rate == DEFAULT_LEARNING_RATE,
            r.validation_split == DEFAULT_VALIDATION_SPLIT,
            config_wf(r),
    {
        TrainingConfig {
            batch_size: DEFAULT_BATCH_SIZE,
            epochs: DEFAULT_EPOCHS,
            num_threads: detected_cpu_count(),
            learning_rate: DEFAULT_LEARNING_RATE,
            validation_split: DEFAULT_VALIDATION_SPLIT,
        }
    }
}

/// How a training run fails.
#[derive(Debug, PartialEq, Eq)]
pub enum TrainingError {
    /// The dataset's inputs and targets differ in length, or it is empty;
    /// detected before any computation, fatal.
    InvalidDataset,
    /// Exclusive access to the model could not be acquired. The in-crate
    /// guard owns the model outright and cannot fail this way; embeddings
    /// that share the guard behind a poisonable lock surface it per batch.
    SynchronizationFailure,
    /// An epoch produced zero successful batches; carries a diagnostic.
    TrainingFailed(String),
}

/// Gradient views of the valid samples of `d` in `[start, end)`, computed
/// against model `m`, in sample order.
pub open spec fn batch_grads(m: Seq<LayerV>, d: DatasetV, start: int, end: int) -> Seq<
    Seq<LayerV>,
>
    decreases end - start,
{
    if end <= start {
        Seq::empty()
    } else {
        let rest = batch_grads(m, d, start, end - 1);
        if sample_ok(m, d.inputs[end - 1], d.targets[end - 1]) {
            rest.push(sample_grad(m, d.inputs[end - 1], d.targets[end - 1]))
        } else {
            rest
        }
    }
}

/// Losses of the valid samples of `d` in `[start, end)` under model `m`, in
/// sample order.
pub open spec fn batch_losses(m: Seq<LayerV>, d: DatasetV, start: int, end: int) -> Seq<i64>
    decreases end - start,
{
    if end <= start {
        Seq::empty()
    } else {
        let rest = batch_losses(m, d, start, end - 1);
        if sample_ok(m, d.inputs[end - 1], d.targets[end - 1]) {
            rest.push(loss_spec(m, d.inputs[end - 1], d.targets[end - 1]) as i64)
        } else {
            rest
        }
    }
}

/// One batch: the model after the batch's mean gradient is applied (the
/// model unchanged when every sample failed), and the batch's mean post-apply
/// loss (`None` when every sample failed).
pub open spec fn run_batch(m: Seq<LayerV>, d: DatasetV, start: int, end: int, lr: i64) -> (
    Seq<LayerV>,
    Option<i64>,
) {
    let gs = batch_grads(m, d, start, end);
    if gs.len() == 0 {
        (m, None::<i64>)
    } else {
        let m2 = apply_spec(m, mean_grads(gs), lr);
        (m2, Some(mean_seq(batch_losses(m2, d, start, end)) as i64))
    }
}

/// The first `j` batches of one epoch, applied in submission order: the
/// resulting model and the losses of the batches that succeeded.
pub open spec fn run_batches(m: Seq<LayerV>, d: DatasetV, bs: nat, lr: i64, j: int) -> (
    Seq<LayerV>,
    Seq<i64>,
)
    decreases j,
{
    if j <= 0 {
        (m, Seq::<i64>::empty())
    } else {
        let prev = run_batches(m, d, bs, lr, j - 1);
        let step = run_batch(
            prev.0,
            d,
            batch_start(j - 1, bs),
            batch_end(d.inputs.len(), j - 1, bs),
            lr,
        );
        match step.1 {
            Some(l) => (step.0, prev.1.push(l)),
            None => (step.0, prev.1),
        }
    }
}

/// One whole epoch: every batch of the partition, in order; the epoch's mean
/// loss is `None` when every batch failed.
pub open spec fn run_epoch(m: Seq<LayerV>, d: DatasetV, bs: nat, lr: i64) -> (
    Seq<LayerV>,
    Option<i64>,
) {
    let full = run_batches(m, d, bs, lr, spec_batch_count(d.inputs.len(), bs));
    if full.1.len() == 0 {
        (full.0, None::<i64>)
    } else {
        (full.0, Some(mean_seq(full.1) as i64))
    }
}

/// The first `e` epochs: final model, the epoch mean losses in order, and
/// whether every epoch so far succeeded. A failed epoch freezes the run.
pub open spec fn run_epochs(m: Seq<LayerV>, d: DatasetV, bs: nat, lr: i64, e: int) -> (
    Seq<LayerV>,
    Seq<i64>,
    bool,
)
    decreases e,
{
    if e <= 0 {
        (m, Seq::<i64>::empty(), true)
    } else {
        let prev = run_epochs(m, d, bs, lr, e - 1);
        if !prev.2 {
            (prev.0, prev.1, false)
        } else {
            let step = run_epoch(prev.0, d, bs, lr);
            match step.1 {
                Some(l) => (step.0, prev.1.push(l), true),
                None => (step.0, prev.1, false),
            }
        }
    }
}

/// Number of valid samples of `d` under `m` whose loss is exactly zero.
pub open spec fn correct_count(m: Seq<LayerV>, d: DatasetV, i: int) -> int
    decreases i,
{
    if i <= 0 {
        0
    } else {
        correct_count(m, d, i - 1) + if sample_ok(m, d.inputs[i - 1], d.targets[i - 1])
            && loss_spec(m, d.inputs[i - 1], d.targets[i - 1]) == 0 {
            1int
        } else {
            0int
        }
    }
}

/// Mean loss of the whole dataset under `m`; zero when no sample is valid.
pub open spec fn eval_loss_spec(m: Seq<LayerV>, d: DatasetV) -> int {
    let ls = batch_losses(m, d, 0, d.inputs.len() as int);
    if ls.len() == 0 {
        0
    } else {
        mean_seq(ls)
    }
}

/// Fraction (of `SCALE`) of valid samples predicted exactly; zero when no
/// sample is valid.
pub open spec fn eval_acc_spec(m: Seq<LayerV>, d: DatasetV) -> int {
    let valid = batch_losses(m, d, 0, d.inputs.len() as int).len() as int;
    if valid == 0 {
        0
    } else {
        tdiv(correct_count(m, d, d.inputs.len() as int) * SCALE, valid)
    }
}

/// Two models that accept the same samples filter a range identically: the
/// gradient list under one is as long as the loss list under the other.
proof fn lemma_batch_filter_len(
    m1: Seq<LayerV>,
    m2: Seq<LayerV>,
    d: DatasetV,
    start: int,
    end: int,
)
    requires
        forall|i: int|
            start <= i < end ==> (#[trigger] sample_ok(m1, d.inputs[i], d.targets[i])
                <==> sample_ok(m2, d.inputs[i], d.targets[i])),
    ensures
        batch_grads(m1, d, start, end).len() == batch_losses(m2, d, start, end).len(),
    decreases end - start,
{
    if end <= start {
    } else {
        lemma_batch_filter_len(m1, m2, d, start, end - 1);
    }
}

/// Every loss in a batch-loss list is non-negative.
proof fn lemma_batch_losses_nonneg(m: Seq<LayerV>, d: DatasetV, start: int, end: int)
    ensures
        forall|j: int|
            0 <= j < batch_losses(m, d, start, end).len() ==> #[trigger] batch_losses(
                m,
                d,
                start,
                end,
            )[j] >= 0,
    decreases end - start,
{
    if end <= start {
    } else {
        lemma_batch_losses_nonneg(m, d, start, end - 1);
        lemma_loss_nonneg(m, d.inputs[end - 1], d.targets[end - 1]);
        let prev = batch_losses(m, d, start, end - 1);
        let cur = batch_losses(m, d, start, end);
        assert forall|j: int| 0 <= j < cur.len() implies cur[j] >= 0 by {
            if sample_ok(m, d.inputs[end - 1], d.targets[end - 1]) {
                assert(cur == prev.push(loss_spec(m, d.inputs[end - 1], d.targets[end - 1]) as i64));
                if j < prev.len() {
                    assert(cur[j] == prev[j]);
                }
            } else {
                assert(cur == prev);
            }
        }
    }
}

/// At most as many samples are exactly right as are valid.
proof fn lemma_correct_le_valid(m: Seq<LayerV>, d: DatasetV, i: int)
    ensures
        0 <= correct_count(m, d, i) <= batch_losses(m, d, 0, i).len(),
    decreases i,
{
    if i <= 0 {
    } else {
        lemma_correct_le_valid(m, d, i - 1);
    }
}

/// Once an epoch fails, later epochs change nothing: the run is frozen at
/// the failure.
proof fn lemma_run_epochs_frozen(m: Seq<LayerV>, d: DatasetV, bs: nat, lr: i64, e0: int, e1: int)
    requires
        0 <= e0 <= e1,
        !run_epochs(m, d, bs, lr, e0).2,
    ensures
        run_epochs(m, d, bs, lr, e1) == run_epochs(m, d, bs, lr, e0),
    decreases e1 - e0,
{
    if e0 < e1 {
        lemma_run_epochs_frozen(m, d, bs, lr, e0, e1 - 1);
    }
}

/// With zero epochs a run applies no gradient step: the model is unchanged
/// and the metrics of a successful run come purely from the evaluation pass
/// over the initial model (by `train`'s contract over `run_epochs`).
pub proof fn lemma_zero_epochs_leave_model(m: Seq<LayerV>, d: DatasetV, bs: nat, lr: i64)
    ensures
        run_epochs(m, d, bs, lr, 0) == (m, Seq::<i64>::empty(), true),
{
}

/// Process one batch against the guarded model: compute per-sample gradients
/// from a read-only snapshot, average them, apply the mean through the
/// guard's exclusive access, and return the batch's mean post-apply loss —
/// `None` when every sample in the batch failed, leaving the model untouched.
pub fn process_batch(
    guard: &mut ModelGuard,
    dataset: &Dataset,
    batch: Batch,
    learning_rate: i64,
) -> (r: Option<i64>)
    requires
        model_wf(old(guard)@),
        dataset@.inputs.len() == dataset@.targets.len(),
        batch.start <= batch.end,
        batch.end <= dataset@.inputs.len(),
    ensures
        final(guard)@ == run_batch(
            old(guard)@,
            dataset@,
            batch.start as int,
            batch.end as int,
            learning_rate,
        ).0,
        r == run_batch(
            old(guard)@,
            dataset@,
            batch.start as int,
            batch.end as int,
            learning_rate,
        ).1,
        model_wf(final(guard)@),
{
    let ghost m = guard@;
    let ghost d = dataset@;
    let ghost s = batch.start as int;
    let ghost e = batch.end as int;
    // Read/compute phase: per-sample gradients against the current snapshot,
    // no exclusive access held.
    let mut grads: Vec<GradientSet> = Vec::new();
    let mut i = batch.start;
    while i < batch.end
        invariant
            batch.start <= i <= batch.end,
            batch.end <= d.inputs.len(),
            d.inputs.len() == d.targets.len(),
            d == dataset@,
            s == batch.start as int,
            guard@ == m,
            model_wf(m),
            set_views(grads@) == batch_grads(m, d, s, i as int),
            forall|j: int| 0 <= j < grads@.len() ==> shape_matches((#[trigger] grads@[j])@, m),
        decreases batch.end - i,
    {
        proof {
            assert(d.inputs[i as int] == dataset.inputs@[i as int]@);
            assert(d.targets[i as int] == dataset.targets@[i as int]@);
        }
        let computed = GradientWorker::compute(
            guard.model(),
            &dataset.inputs[i],
            &dataset.targets[i],
        );
        match computed {
            Some(g) => {
                proof {
                    assert(sample_ok(m, d.inputs[i as int], d.targets[i as int]));
                    assert(g@ == sample_grad(m, d.inputs[i as int], d.targets[i as int]));
                    assert(set_views(grads@.push(g)) =~= set_views(grads@).push(g@));
                    assert(batch_grads(m, d, s, i as int + 1) == batch_grads(
                        m,
                        d,
                        s,
                        i as int,
                    ).push(sample_grad(m, d.inputs[i as int], d.targets[i as int])));
                }
                grads.push(g);
            },
            None => {
                proof {
                    assert(!sample_ok(m, d.inputs[i as int], d.targets[i as int]));
                    assert(batch_grads(m, d, s, i as int + 1) == batch_grads(m, d, s, i as int));
                }
            },
        }
        i = i + 1;
    }
    proof {
        assert forall|j: int|
            0 <= j < set_views(grads@).len() implies shape_matches(
            #[trigger] set_views(grads@)[j],
            set_views(grads@)[0],
        ) by {
            assert(shape_matches(grads@[j]@, m));
            assert(shape_matches(grads@[0]@, m));
            lemma_shape_matches_sym(grads@[0]@, m);
            lemma_shape_matches_trans(grads@[j]@, m, grads@[0]@);
        }
    }
    let ghost gs = batch_grads(m, d, s, e);
    let averaged = GradientAggregator::average(&grads);
    match averaged {
        None => {
            proof {
                assert(gs.len() == 0);
            }
            None
        },
        Some(avg) => {
            proof {
                assert(gs.len() >= 1);
                assert(avg@ == mean_grads(gs));
                assert(shape_matches(avg@, grads@[0]@));
                lemma_shape_matches_trans(avg@, grads@[0]@, m);
            }
            // Exclusive-apply phase: one atomic transition of the model.
            guard.apply(&avg, learning_rate);
            let ghost m2 = guard@;
            proof {
                assert(m2 == apply_spec(m, mean_grads(gs), learning_rate));
                lemma_apply_preserves_shape(m, mean_grads(gs), learning_rate, 0);
            }
            // Loss phase over the updated model, for the samples that fit.
            let mut losses: Vec<i64> = Vec::new();
            let mut i2 = batch.start;
            while i2 < batch.end
                invariant
                    batch.start <= i2 <= batch.end,
                    batch.end <= d.inputs.len(),
                    d.inputs.len() == d.targets.len(),
                    d == dataset@,
                    s == batch.start as int,
                    guard@ == m2,
                    model_wf(m2),
                    losses@ == batch_losses(m2, d, s, i2 as int),
                decreases batch.end - i2,
            {
                proof {
                    assert(d.inputs[i2 as int] == dataset.inputs@[i2 as int]@);
                    assert(d.targets[i2 as int] == dataset.targets@[i2 as int]@);
                }
                let x = &dataset.inputs[i2];
                let t = &dataset.targets[i2];
                if sample_fits(guard.model(), x.len(), t.len()) {
                    proof {
                        assert(sample_ok(m2, d.inputs[i2 as int], d.targets[i2 as int]));
                    }
                    let l = sample_loss(guard.model(), x, t);
                    proof {
                        assert(l == loss_spec(m2, d.inputs[i2 as int], d.targets[i2 as int]) as i64);
                        assert(batch_losses(m2, d, s, i2 as int + 1) == batch_losses(
                            m2,
                            d,
                            s,
                            i2 as int,
                        ).push(l));
                    }
                    losses.push(l);
                } else {
                    proof {
                        assert(!sample_ok(m2, d.inputs[i2 as int], d.targets[i2 as int]));
                        assert(batch_losses(m2, d, s, i2 as int + 1) == batch_losses(
                            m2,
                            d,
                            s,
                            i2 as int,
                        ));
                    }
                }
                i2 = i2 + 1;
            }
            proof {
                assert forall|ii: int|
                    s <= ii < e implies (#[trigger] sample_ok(m, d.inputs[ii], d.targets[ii])
                    <==> sample_ok(m2, d.inputs[ii], d.targets[ii])) by {
                    lemma_apply_preserves_shape(
                        m,
                        mean_grads(gs),
                        learning_rate,
                        d.inputs[ii].len(),
                    );
                }
                lemma_batch_filter_len(m, m2, d, s, e);
                assert(losses@.len() == gs.len());
                lemma_mean_seq_in_range(losses@);
            }
            let l = mean_i64(&losses);
            Some(l)
        },
    }
}

/// Evaluate the model over the whole dataset: mean loss of the valid samples
/// and the fraction (of `SCALE`) predicted exactly; both zero when no sample
/// is valid.
pub fn evaluate_model(model: &NeuralNetwork, dataset: &Dataset) -> (r: (i64, i64))
    requires
        model_wf(model@),
        dataset@.inputs.len() == dataset@.targets.len(),
    ensures
        r.0 as int == eval_loss_spec(model@, dataset@),
        r.1 as int == eval_acc_spec(model@, dataset@),
        r.0 >= 0,
        0 <= r.1 <= SCALE,
{
    let ghost m = model@;
    let ghost d = dataset@;
    let n = dataset.inputs.len();
    let mut losses: Vec<i64> = Vec::new();
    let mut correct: usize = 0;
    let mut i: usize = 0;
    while i < n
        invariant
            0 <= i <= n,
            n == d.inputs.len(),
            d.inputs.len() == d.targets.len(),
            d == dataset@,
            m == model@,
            model_wf(m),
            losses@ == batch_losses(m, d, 0, i as int),
            correct == correct_count(m, d, i as int),
            correct <= losses@.len(),
        decreases n - i,
    {
        proof {
            assert(d.inputs[i as int] == dataset.inputs@[i as int]@);
            assert(d.targets[i as int] == dataset.targets@[i as int]@);
            lemma_correct_le_valid(m, d, i as int);
        }
        let x = &dataset.inputs[i];
        let t = &dataset.targets[i];
        if sample_fits(model, x.len(), t.len()) {
            proof {
                assert(sample_ok(m, d.inputs[i as int], d.targets[i as int]));
            }
            let l = sample_loss(model, x, t);
            proof {
                assert(l == loss_spec(m, d.inputs[i as int], d.targets[i as int]) as i64);
                assert(l as int == loss_spec(m, d.inputs[i as int], d.targets[i as int]));
            }
            losses.push(l);
            let filled = losses.len();
            if l == 0 {
                proof {
                    assert(correct < filled);
                }
                correct = correct + 1;
            }
        } else {
            proof {
                assert(!sample_ok(m, d.inputs[i as int], d.targets[i as int]));
            }
        }
        i = i + 1;
    }
    if losses.len() == 0 {
        (0, 0)
    } else {
        proof {
            lemma_batch_losses_nonneg(m, d, 0, n as int);
            lemma_mean_seq_nonneg(losses@);
            lemma_mean_seq_in_range(losses@);
        }
        let loss = mean_i64(&losses);
        let valid = losses.len();
        let ghost c = correct as int;
        let ghost v = valid as int;
        proof {
            assert(c * SCALE <= 0x7fff_ffff_ffff_ffff_ffff_ffff_ffff_ffff
                && c * SCALE >= 0) by (nonlinear_arith)
                requires
                    0 <= c <= 0xffff_ffff_ffff_ffff,
            ;
        }
        let num = (correct as i128) * (SCALE as i128);
        let acc_wide = div_trunc(num, valid as i128);
        proof {
            lemma_tdiv_bounds(c * SCALE, v);
            lemma_mul_inequality(c, v, SCALE as int);
            assert(v * SCALE == SCALE * v) by (nonlinear_arith);
            lemma_div_is_ordered(c * SCALE, v * SCALE, v);
            lemma_tdiv_exact(SCALE as int, v);
            assert(tdiv(c * SCALE, v) <= SCALE);
        }
        let acc = clamp_to_i64(acc_wide);
        (loss, acc)
    }
}

/// Mathematical view of a trainer: the guarded model's parameters and the
/// configuration.
#[verifier::ext_equal]
pub struct TrainerV {
    pub model: Seq<LayerV>,
    pub config: TrainingConfig,
}

/// The orchestrator: owns the model behind an exclusive-access guard and
/// drives the epoch loop.
pub struct ParallelTrainer {
    guard: ModelGuard,
    config: TrainingConfig,
}

impl View for ParallelTrainer {
    type V = TrainerV;

    closed spec fn view(&self) -> TrainerV {
        TrainerV { model: self.guard@, config: self.config }
    }
}

impl ParallelTrainer {
    /// A trainer is fit to run: its model is well-formed and its
    /// configuration is within the defined ranges.
    pub open spec fn wf(&self) -> bool {
        model_wf(self@.model) && config_wf(self@.config)
    }

    /// A trainer over `model` with the default configuration.
    pub fn new(model: NeuralNetwork) -> (r: Self)
        requires
            model_wf(model@),
        ensures
            r.wf(),
            r@.model == model@,
            r@.config.batch_size == DEFAULT_BATCH_SIZE,
            r@.config.epochs == DEFAULT_EPOCHS,
            r@.config.num_threads >= 1,
            r@.config.learning_rate == DEFAULT_LEARNING_RATE,
            r@.config.validation_split == DEFAULT_VALIDATION_SPLIT,
    {
        ParallelTrainer { guard: ModelGuard::new(model), config: TrainingConfig::default() }
    }

    /// A trainer over `model` with a caller-supplied configuration; the
    /// configuration is the caller's contract, validated up front.
    pub fn with_config(model: NeuralNetwork, config: TrainingConfig) -> (r: Self)
        requires
            model_wf(model@),
            config_wf(config),
        ensures
            r.wf(),
            r@.model == model@,
            r@.config == config,
    {
        ParallelTrainer { guard: ModelGuard::new(model), config }
    }

    /// The trainer's configuration.
    pub fn config(&self) -> (r: &TrainingConfig)
        ensures
            *r == self@.config,
    {
        &self.config
    }

    /// An owned, consistent copy of the current model parameters.
    pub fn model_snapshot(&self) -> (r: NeuralNetwork)
        ensures
            r@ == self@.model,
    {
        self.guard.snapshot()
    }

    /// Evaluate the current model over a dataset (see `evaluate_model`).
    pub fn evaluate(&self, dataset: &Dataset) -> (r: (i64, i64))
        requires
            self.wf(),
            dataset@.inputs.len() == dataset@.targets.len(),
        ensures
            r.0 as int == eval_loss_spec(self@.model, dataset@),
            r.1 as int == eval_acc_spec(self@.model, dataset@),
            r.0 >= 0,
            0 <= r.1 <= SCALE,
    {
        evaluate_model(self.guard.model(), dataset)
    }

    /// Train the model on the dataset: for each epoch, process every batch
    /// of the fixed partition in order, then evaluate the final model.
    ///
    /// A dataset whose inputs and targets differ in length, or which is
    /// empty, is rejected up front with `InvalidDataset` and the model is
    /// left untouched. An epoch in which every batch fails aborts the run
    /// with `TrainingFailed`. Otherwise the run succeeds, and everything in
    /// the metrics except the elapsed time is a function of the initial
    /// model, the configuration and the dataset.
    pub fn train(&mut self, dataset: &Dataset) -> (r: Result<TrainingMetrics, TrainingError>)
        requires
            old(self).wf(),
        ensures
            final(self).wf(),
            final(self)@.config == old(self)@.config,
            (r == Err::<TrainingMetrics, TrainingError>(TrainingError::InvalidDataset))
                <==> !dataset_valid(dataset@),
            !dataset_valid(dataset@) ==> final(self)@ == old(self)@,
            dataset_valid(dataset@) ==> {
                let outcome = run_epochs(
                    old(self)@.model,
                    dataset@,
                    old(self)@.config.batch_size as nat,
                    old(self)@.config.learning_rate,
                    old(self)@.config.epochs as int,
                );
                &&& final(self)@.model == outcome.0
                &&& (r is Ok <==> outcome.2)
                &&& (!outcome.2 ==> r matches Err(TrainingError::TrainingFailed(_)))
                &&& (r matches Ok(met) ==> met.loss as int == eval_loss_spec(outcome.0, dataset@)
                    && met.accuracy as int == eval_acc_spec(outcome.0, dataset@) && met.loss >= 0
                    && 0 <= met.accuracy <= SCALE)
            },
    {
        if dataset.inputs.len() != dataset.targets.len() || dataset.inputs.len() == 0 {
            return Err(TrainingError::InvalidDataset);
        }
        let started = clock_now();
        let ghost m0 = self@.model;
        let ghost d = dataset@;
        let ghost bs = self.config.batch_size as nat;
        let ghost lr = self.config.learning_rate;
        let ghost cfg = self@.config;
        let n = dataset.inputs.len();
        let batches = BatchScheduler::partition(n, self.config.batch_size);
        proof {
            crate::scheduler::lemma_partition_shape(n as nat, bs);
        }
        let epochs = self.config.epochs;
        let mut collector = MetricsCollector::new();
        let mut e: usize = 0;
        while e < epochs
            invariant
                0 <= e <= epochs,
                self.wf(),
                self@.config == cfg,
                cfg == old(self)@.config,
                m0 == old(self)@.model,
                epochs == cfg.epochs,
                d == dataset@,
                d.inputs.len() == d.targets.len(),
                n == d.inputs.len(),
                n >= 1,
                bs == cfg.batch_size as nat,
                lr == cfg.learning_rate,
                batches@.len() == spec_batch_count(n as nat, bs),
                forall|k: int|
                    0 <= k < batches@.len() ==> (#[trigger] batches@[k]).start == batch_start(
                        k,
                        bs,
                    ) && batches@[k].end == batch_end(n as nat, k, bs),
                run_epochs(m0, d, bs, lr, e as int).0 == self@.model,
                run_epochs(m0, d, bs, lr, e as int).1 == collector@,
                run_epochs(m0, d, bs, lr, e as int).2,
            decreases epochs - e,
        {
            let ghost me = self@.model;
            let mut losses: Vec<i64> = Vec::new();
            let mut b: usize = 0;
            while b < batches.len()
                invariant
                    0 <= b <= batches@.len(),
                    self.wf(),
                    self@.config == cfg,
                    cfg == old(self)@.config,
                    m0 == old(self)@.model,
                    epochs == cfg.epochs,
                    e < epochs,
                    n >= 1,
                    run_epochs(m0, d, bs, lr, e as int).0 == me,
                    run_epochs(m0, d, bs, lr, e as int).1 == collector@,
                    run_epochs(m0, d, bs, lr, e as int).2,
                    d == dataset@,
                    d.inputs.len() == d.targets.len(),
                    n == d.inputs.len(),
                    bs == cfg.batch_size as nat,
                    lr == cfg.learning_rate,
                    batches@.len() == spec_batch_count(n as nat, bs),
                    forall|k: int|
                        0 <= k < batches@.len() ==> (#[trigger] batches@[k]).start == batch_start(
                            k,
                            bs,
                        ) && batches@[k].end == batch_end(n as nat, k, bs),
                    run_batches(me, d, bs, lr, b as int).0 == self@.model,
                    run_batches(me, d, bs, lr, b as int).1 == losses@,
                decreases batches@.len() - b,
            {
                proof {
                    crate::scheduler::lemma_partition_shape(n as nat, bs);
                }
                let batch = batches[b];
                let outcome = process_batch(&mut self.guard, dataset, batch, self.config.learning_rate);
                match outcome {
                    Some(l) => losses.push(l),
                    None => {},
                }
                b = b + 1;
            }
            proof {
                assert(run_batches(me, d, bs, lr, spec_batch_count(n as nat, bs)).0
                    == self@.model);
                assert(run_batches(me, d, bs, lr, spec_batch_count(n as nat, bs)).1 == losses@);
            }
            if losses.len() == 0 {
                proof {
                    assert(run_epoch(me, d, bs, lr) == (self@.model, None::<i64>));
                    assert(run_epochs(m0, d, bs, lr, e as int + 1) == (
                        self@.model,
                        collector@,
                        false,
                    ));
                    lemma_run_epochs_frozen(m0, d, bs, lr, e as int + 1, epochs as int);
                }
                return Err(
                    TrainingError::TrainingFailed("every batch in an epoch failed".to_string()),
                );
            }
            proof {
                lemma_mean_seq_in_range(losses@);
            }
            let epoch_loss = mean_i64(&losses);
            proof {
                assert(epoch_loss == mean_seq(losses@) as i64);
                assert(run_epoch(me, d, bs, lr) == (self@.model, Some(epoch_loss)));
            }
            collector.record_epoch(epoch_loss);
            proof {
                assert(run_epochs(m0, d, bs, lr, e as int + 1) == (
                    self@.model,
                    collector@,
                    true,
                ));
            }
            e = e + 1;
        }
        // Evaluation pass over the final model.
        let evaluated = evaluate_model(self.guard.model(), dataset);
        let elapsed = nanos_to_u64(duration_nanos(&elapsed_since(&started)));
        Ok(collector.finalize(evaluated.0, evaluated.1, elapsed))
    }
}

} // verus!
