//! Epoch-loss collection and the final training metrics.
//!
//! The collector records one mean loss per completed epoch, in order — a
//! deterministic, sequential reduction — and is folded with the final
//! evaluation pass into an immutable `TrainingMetrics` value.

use vstd::prelude::*;

verus! {

/// Result of a whole training run: final evaluation loss and accuracy (both
/// in fixed-point units; accuracy is a fraction of `SCALE`) and the elapsed
/// wall-clock time of the run in nanoseconds.
#[derive(Clone, Copy, Debug, PartialEq, Eq, Structural)]
pub struct TrainingMetrics {
    pub loss: i64,
    pub accuracy: i64,
    pub training_time: u64,
}

/// Accumulates the per-epoch mean losses of a run, in epoch order.
pub struct MetricsCollector {
    epoch_losses: Vec<i64>,
}

impl View for MetricsCollector {
    type V = Seq<i64>;

    closed spec fn view(&self) -> Seq<i64> {
        self.epoch_losses@
    }
}

impl MetricsCollector {
    /// An empty collector: no epochs recorded yet.
    pub fn new() -> (r: Self)
        ensures
            r@ == Seq::<i64>::empty(),
    {
        MetricsCollector { epoch_losses: Vec::new() }
    }

    /// Record the mean loss of the next completed epoch.
    pub fn record_epoch(&mut self, loss: i64)
        ensures
            final(self)@ == old(self)@.push(loss),
    {
        self.epoch_losses.push(loss);
    }

    /// The epoch losses recorded so far, in order.
    pub fn epoch_losses(&self) -> (r: &Vec<i64>)
        ensures
            r@ == self@,
    {
        &self.epoch_losses
    }

    /// Fold the recorded epochs and the final evaluation pass into the run's
    /// immutable metrics.
    pub fn finalize(&self, loss: i64, accuracy: i64, training_time: u64) -> (r: TrainingMetrics)
        ensures
            r.loss == loss,
            r.accuracy == accuracy,
            r.training_time == training_time,
    {
        TrainingMetrics { loss, accuracy, training_time }
    }
}

} // verus!
