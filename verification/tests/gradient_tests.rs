use parallel_llm_trainer::{
    GradientAggregator, GradientSet, GradientWorker, LayerGradient, NeuralNetwork, SCALE,
};

fn one_layer_set(w: i64, b: i64) -> GradientSet {
    GradientSet { layers: vec![LayerGradient { weights: vec![vec![w]], biases: vec![b] }] }
}

#[test]
fn average_of_identical_sets_is_unchanged() {
    let sets = vec![one_layer_set(5, -7), one_layer_set(5, -7), one_layer_set(5, -7)];
    let mean = GradientAggregator::average(&sets).unwrap();
    assert_eq!(mean, one_layer_set(5, -7));
}

#[test]
fn average_of_empty_batch_fails() {
    let empty: Vec<GradientSet> = Vec::new();
    assert!(GradientAggregator::average(&empty).is_none());
}

#[test]
fn average_is_truncated_arithmetic_mean() {
    // (1 + 2 + 4) / 3 = 2 (rounded toward zero), and the mean of the
    // negations is -2, not the -3 a floor division would give.
    let sets = vec![one_layer_set(1, -1), one_layer_set(2, -2), one_layer_set(4, -4)];
    let mean = GradientAggregator::average(&sets).unwrap();
    assert_eq!(mean, one_layer_set(2, -2));
}

#[test]
fn worker_computes_delta_rule_gradient() {
    // One neuron: weight 0.5, bias 0.1; input 2.0, target 0.1.
    // Prediction: relu(0.1 + 0.5 * 2.0) = 1.1; error 1.0.
    // Bias gradient: 1.0; weight gradient: 1.0 * 2.0 = 2.0.
    let model = NeuralNetwork {
        layers: vec![parallel_llm_trainer::Layer {
            weights: vec![vec![SCALE / 2]],
            biases: vec![SCALE / 10],
        }],
        learning_rate: SCALE / 100,
    };
    let input: Vec<i64> = vec![2 * SCALE];
    let target: Vec<i64> = vec![SCALE / 10];
    let g = GradientWorker::compute(&model, &input, &target).unwrap();
    assert_eq!(g, one_layer_set(2 * SCALE, SCALE));
}

#[test]
fn worker_rejects_mismatched_dimensions() {
    let sizes: Vec<usize> = vec![1, 1];
    let model = NeuralNetwork::new(&sizes, SCALE / 100);
    let too_wide: Vec<i64> = vec![0, 0];
    let target: Vec<i64> = vec![0];
    assert!(GradientWorker::compute(&model, &too_wide, &target).is_none());
    let input: Vec<i64> = vec![0];
    let bad_target: Vec<i64> = vec![0, 0];
    assert!(GradientWorker::compute(&model, &input, &bad_target).is_none());
}

#[test]
fn worker_gives_earlier_layers_zero_gradients() {
    let sizes: Vec<usize> = vec![2, 2, 1];
    let model = NeuralNetwork::new(&sizes, SCALE / 100);
    let input: Vec<i64> = vec![SCALE, SCALE];
    let target: Vec<i64> = vec![0];
    let g = GradientWorker::compute(&model, &input, &target).unwrap();
    assert_eq!(g.layers.len(), 2);
    assert_eq!(g.layers[0].biases, vec![0, 0]);
    assert_eq!(g.layers[0].weights, vec![vec![0, 0], vec![0, 0]]);
}

#[test]
fn forward_pass_is_rectified_scaled_dot_product() {
    // weights 0.01, biases 0: forward(1.0) = relu(0.01 * 1.0) = 0.01.
    let sizes: Vec<usize> = vec![1, 1];
    let model = NeuralNetwork::new(&sizes, SCALE / 100);
    let input: Vec<i64> = vec![SCALE];
    assert_eq!(model.forward(&input), vec![SCALE / 100]);
    // A negative pre-activation is rectified to zero.
    let negative: Vec<i64> = vec![-SCALE];
    assert_eq!(model.forward(&negative), vec![0]);
}
