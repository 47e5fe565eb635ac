//! A data-parallel training orchestrator for a small layered numeric model.
//!
//! All numeric values (parameters, gradients, learning rates, losses) are
//! fixed-point integers scaled by [`fixed::SCALE`]; the orchestration logic —
//! partitioning a dataset into batches, computing per-sample gradients against
//! a read-only model snapshot, averaging them per batch, applying updates
//! through an exclusive-access guard, and aggregating epoch metrics — is
//! verified against contracts stated over mathematical views of those values.

pub mod aggregator;
pub mod clock;
pub mod dataset;
pub mod fixed;
pub mod gradient;
pub mod guard;
pub mod metrics;
pub mod neural_network;
pub mod scheduler;
pub mod trainer;
pub mod worker;

pub use crate::aggregator::GradientAggregator;
pub use crate::dataset::Dataset;
pub use crate::fixed::SCALE;
pub use crate::gradient::{GradientSet, LayerGradient};
pub use crate::guard::ModelGuard;
pub use crate::metrics::{MetricsCollector, TrainingMetrics};
pub use crate::neural_network::{Layer, NeuralNetwork};
pub use crate::scheduler::{Batch, BatchScheduler};
pub use crate::trainer::{ParallelTrainer, TrainingConfig, TrainingError};
pub use crate::worker::GradientWorker;
