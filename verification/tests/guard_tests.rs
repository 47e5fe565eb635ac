use parallel_llm_trainer::{GradientSet, Layer, LayerGradient, ModelGuard, NeuralNetwork, SCALE};

fn one_neuron_model(w: i64, b: i64) -> NeuralNetwork {
    NeuralNetwork {
        layers: vec![Layer { weights: vec![vec![w]], biases: vec![b] }],
        learning_rate: SCALE / 100,
    }
}

fn one_layer_grads(w: i64, b: i64) -> GradientSet {
    GradientSet { layers: vec![LayerGradient { weights: vec![vec![w]], biases: vec![b] }] }
}

#[test]
fn apply_subtracts_scaled_gradient_from_every_parameter() {
    // weight 1.0, bias 0; gradients 0.5 and 0.2; learning rate 0.01:
    // weight' = 1.0 - 0.01 * 0.5 = 0.995, bias' = -0.01 * 0.2 = -0.002.
    let mut guard = ModelGuard::new(one_neuron_model(SCALE, 0));
    guard.apply(&one_layer_grads(SCALE / 2, SCALE / 5), SCALE / 100);
    let after = guard.snapshot();
    assert_eq!(after.layers[0].weights, vec![vec![995_000]]);
    assert_eq!(after.layers[0].biases, vec![-2_000]);
}

#[test]
fn apply_of_zero_gradients_keeps_the_model() {
    let mut guard = ModelGuard::new(one_neuron_model(SCALE, 7));
    let before = guard.snapshot();
    guard.apply(&one_layer_grads(0, 0), SCALE / 100);
    assert_eq!(guard.snapshot(), before);
}

#[test]
fn snapshots_are_whole_consistent_states() {
    // A snapshot taken before an apply keeps the whole pre-apply state; one
    // taken after reflects the whole update — never a mix of the two.
    let mut guard = ModelGuard::new(one_neuron_model(SCALE, 0));
    let before = guard.snapshot();
    guard.apply(&one_layer_grads(SCALE / 2, SCALE / 5), SCALE / 100);
    let after = guard.snapshot();
    assert_eq!(before.layers[0].weights, vec![vec![SCALE]]);
    assert_eq!(before.layers[0].biases, vec![0]);
    assert_eq!(after.layers[0].weights, vec![vec![995_000]]);
    assert_eq!(after.layers[0].biases, vec![-2_000]);
}
