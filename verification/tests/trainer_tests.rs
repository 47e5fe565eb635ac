use parallel_llm_trainer::{
    BatchScheduler, Dataset, MetricsCollector, NeuralNetwork, ParallelTrainer, TrainingConfig,
    TrainingError, SCALE,
};

fn small_model() -> NeuralNetwork {
    let sizes: Vec<usize> = vec![2, 1];
    NeuralNetwork::new(&sizes, SCALE / 100)
}

fn four_sample_dataset() -> Dataset {
    let inputs: Vec<Vec<i64>> = vec![
        vec![SCALE, 0],
        vec![0, SCALE],
        vec![SCALE, SCALE],
        vec![2 * SCALE, SCALE],
    ];
    let targets: Vec<Vec<i64>> = vec![vec![SCALE], vec![0], vec![SCALE / 2], vec![SCALE]];
    Dataset::new(inputs, targets)
}

fn config(batch_size: usize, epochs: usize, num_threads: usize) -> TrainingConfig {
    TrainingConfig {
        batch_size,
        epochs,
        num_threads,
        learning_rate: SCALE / 100,
        validation_split: SCALE / 5,
    }
}

#[test]
fn mismatched_dataset_is_rejected_without_mutation() {
    let mut trainer = ParallelTrainer::with_config(small_model(), config(2, 3, 1));
    let before = trainer.model_snapshot();
    let inputs: Vec<Vec<i64>> = vec![vec![0, 0], vec![SCALE, 0]];
    let targets: Vec<Vec<i64>> = vec![vec![0]];
    let bad = Dataset::new(inputs, targets);
    assert_eq!(trainer.train(&bad), Err(TrainingError::InvalidDataset));
    assert_eq!(trainer.model_snapshot(), before);
}

#[test]
fn empty_dataset_is_rejected_for_any_config() {
    for (bs, ep, th) in [(1, 0, 1), (2, 1, 1), (32, 10, 8)] {
        let mut trainer = ParallelTrainer::with_config(small_model(), config(bs, ep, th));
        let empty = Dataset::new(Vec::new(), Vec::new());
        assert_eq!(trainer.train(&empty), Err(TrainingError::InvalidDataset));
    }
}

#[test]
fn end_to_end_single_thread_two_batches() {
    // 4 samples of dimension 2, targets of dimension 1, batch size 2:
    // exactly 2 batches per epoch.
    assert_eq!(BatchScheduler::partition(4, 2).len(), 2);
    let mut trainer = ParallelTrainer::with_config(small_model(), config(2, 1, 1));
    let metrics = trainer.train(&four_sample_dataset()).unwrap();
    assert!(metrics.loss >= 0);
    assert!(metrics.training_time > 0);
}

#[test]
fn zero_epochs_evaluates_the_unmodified_model() {
    let mut trainer = ParallelTrainer::with_config(small_model(), config(2, 0, 1));
    let dataset = four_sample_dataset();
    let before = trainer.model_snapshot();
    let (expected_loss, expected_accuracy) = trainer.evaluate(&dataset);
    let metrics = trainer.train(&dataset).unwrap();
    assert_eq!(trainer.model_snapshot(), before);
    assert_eq!(metrics.loss, expected_loss);
    assert_eq!(metrics.accuracy, expected_accuracy);
}

#[test]
fn training_with_one_thread_is_deterministic() {
    let mut first = ParallelTrainer::with_config(small_model(), config(2, 3, 1));
    let mut second = ParallelTrainer::with_config(small_model(), config(2, 3, 1));
    let a = first.train(&four_sample_dataset()).unwrap();
    let b = second.train(&four_sample_dataset()).unwrap();
    assert_eq!(a.loss, b.loss);
    assert_eq!(a.accuracy, b.accuracy);
    assert_eq!(first.model_snapshot(), second.model_snapshot());
}

#[test]
fn training_applies_gradient_steps() {
    let mut trainer = ParallelTrainer::with_config(small_model(), config(2, 1, 1));
    let before = trainer.model_snapshot();
    trainer.train(&four_sample_dataset()).unwrap();
    assert_ne!(trainer.model_snapshot(), before);
}

#[test]
fn run_fails_when_every_sample_misfits_the_model() {
    // Every input has dimension 3 against a model that consumes 2: every
    // sample of every batch fails, so the first epoch fails the run.
    let mut trainer = ParallelTrainer::with_config(small_model(), config(2, 1, 1));
    let inputs: Vec<Vec<i64>> = vec![vec![0, 0, 0], vec![SCALE, 0, 0]];
    let targets: Vec<Vec<i64>> = vec![vec![0], vec![0]];
    let misfit = Dataset::new(inputs, targets);
    match trainer.train(&misfit) {
        Err(TrainingError::TrainingFailed(_)) => {}
        other => panic!("expected TrainingFailed, got {:?}", other),
    }
}

#[test]
fn zero_epochs_on_misfit_samples_still_succeeds() {
    // With no epochs there are no batches to fail; evaluation skips the
    // misfit samples and reports zero loss and zero accuracy.
    let mut trainer = ParallelTrainer::with_config(small_model(), config(2, 0, 1));
    let inputs: Vec<Vec<i64>> = vec![vec![0, 0, 0]];
    let targets: Vec<Vec<i64>> = vec![vec![0]];
    let misfit = Dataset::new(inputs, targets);
    let metrics = trainer.train(&misfit).unwrap();
    assert_eq!(metrics.loss, 0);
    assert_eq!(metrics.accuracy, 0);
}

#[test]
fn default_config_matches_documented_policy() {
    let c = TrainingConfig::default();
    assert_eq!(c.batch_size, 32);
    assert_eq!(c.epochs, 10);
    assert!(c.num_threads >= 1);
    assert_eq!(c.learning_rate, 10_000);
    assert_eq!(c.validation_split, 200_000);
}

#[test]
fn evaluate_reports_exact_predictions_as_accurate() {
    // On input 0 the model outputs 0; a zero target is an exact prediction,
    // so the loss is zero and accuracy is the whole fraction.
    let sizes: Vec<usize> = vec![1, 1];
    let model = NeuralNetwork::new(&sizes, SCALE / 100);
    let trainer = ParallelTrainer::with_config(model, config(1, 1, 1));
    let inputs: Vec<Vec<i64>> = vec![vec![0]];
    let targets: Vec<Vec<i64>> = vec![vec![0]];
    let dataset = Dataset::new(inputs, targets);
    let (loss, accuracy) = trainer.evaluate(&dataset);
    assert_eq!(loss, 0);
    assert_eq!(accuracy, SCALE);
}

#[test]
fn per_sample_loss_is_scaled_squared_error() {
    // One neuron, weight 0.5, bias 0.1, input 2.0, target 0.1: error 1.0,
    // squared-error loss 1.0 over one sample and one output.
    let model = NeuralNetwork {
        layers: vec![parallel_llm_trainer::Layer {
            weights: vec![vec![SCALE / 2]],
            biases: vec![SCALE / 10],
        }],
        learning_rate: SCALE / 100,
    };
    let trainer = ParallelTrainer::with_config(model, config(1, 1, 1));
    let inputs: Vec<Vec<i64>> = vec![vec![2 * SCALE]];
    let targets: Vec<Vec<i64>> = vec![vec![SCALE / 10]];
    let dataset = Dataset::new(inputs, targets);
    let (loss, accuracy) = trainer.evaluate(&dataset);
    assert_eq!(loss, SCALE);
    assert_eq!(accuracy, 0);
}

#[test]
fn metrics_collector_keeps_epoch_losses_in_order() {
    let mut collector = MetricsCollector::new();
    collector.record_epoch(30);
    collector.record_epoch(20);
    collector.record_epoch(25);
    assert_eq!(collector.epoch_losses(), &vec![30, 20, 25]);
    let metrics = collector.finalize(20, SCALE / 2, 17);
    assert_eq!(metrics.loss, 20);
    assert_eq!(metrics.accuracy, SCALE / 2);
    assert_eq!(metrics.training_time, 17);
}
