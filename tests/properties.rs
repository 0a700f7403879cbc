use libnn::dense::{Activation, DenseLayer};
use libnn::fixed::{add_sat, mul_fixed, sub_sat, Weight, ONE};
use libnn::network::RecurrentNetwork;
use libnn::output::{CostFunction, OutputLayer};
use libnn::rnn::RecurrentLayer;

const HALF: Weight = ONE / 2;
const QUARTER: Weight = ONE / 4;

fn layer(state_size: usize, recurrent_weight: Weight, output_weight: Weight) -> RecurrentLayer {
    RecurrentLayer::new(
        1,
        1,
        &|_: usize, _: usize| -> Weight { recurrent_weight },
        &|_: usize| -> Weight { 0 },
        Activation::Identity,
        &|_: usize, _: usize| -> Weight { output_weight },
        &|_: usize| -> Weight { 0 },
        Activation::Identity,
        state_size,
    )
}

fn network(state_size: usize, recurrent_weight: Weight, output_weight: Weight) -> RecurrentNetwork {
    RecurrentNetwork {
        recurrent_layer: layer(state_size, recurrent_weight, output_weight),
        output_layer: OutputLayer::new(
            Activation::Identity,
            CostFunction::MeanSquaredError,
            &|_: usize, _: usize| -> Weight { ONE },
            1,
            1,
        ),
        recurrent_layer_outputs: Vec::new(),
        outputs: Vec::new(),
    }
}

#[test]
fn fixed_point_arithmetic() {
    assert_eq!(add_sat(ONE, HALF), ONE + HALF);
    assert_eq!(add_sat(i64::MAX, 1), i64::MAX);
    assert_eq!(sub_sat(i64::MIN, 1), i64::MIN);
    assert_eq!(sub_sat(ONE, QUARTER), 3 * QUARTER);
    assert_eq!(mul_fixed(HALF, HALF), QUARTER);
    assert_eq!(mul_fixed(-HALF, HALF), -QUARTER);
    assert_eq!(mul_fixed(-1, 1), 0);
    assert_eq!(mul_fixed(3, HALF), 1);
    assert_eq!(mul_fixed(i64::MAX, 4 * ONE), i64::MAX);
    assert_eq!(mul_fixed(i64::MIN, 4 * ONE), i64::MIN);
}

#[test]
fn relu_clips_negative_sums() {
    let mut d = DenseLayer::new(
        2,
        1,
        &|j: usize, _: usize| -> Weight { if j == 0 { ONE } else { -ONE } },
        &|_: usize| -> Weight { 0 },
        Activation::Relu,
    );
    d.forward_propagate(&vec![HALF]);
    assert_eq!(d.outputs, vec![HALF, 0]);
}

#[test]
fn forward_step_records_history_and_state() {
    let mut l = layer(1, HALF, ONE);
    l.forward_propagate(&[ONE], 0);
    // state 0, input 1: both sublayers see [0, 1]
    assert_eq!(l.state, vec![HALF]);
    assert_eq!(l.get_outputs(), &[ONE][..]);
    l.forward_propagate(&[HALF], 1);
    // state 0.5, input 0.5
    assert_eq!(l.state, vec![HALF]);
    assert_eq!(l.get_outputs(), &[ONE][..]);
    assert_eq!(l.prev_states, vec![vec![0], vec![HALF]]);
    assert_eq!(l.sequence_inputs, vec![vec![ONE], vec![HALF]]);
    assert_eq!(l.combined_inputs_scratch, vec![HALF, HALF]);
}

#[test]
fn reset_twice_equals_once() {
    let mut a = layer(2, HALF, ONE);
    a.forward_propagate(&[ONE], 0);
    assert_ne!(a.state, vec![0, 0]);
    a.reset();
    let once = a.state.clone();
    a.reset();
    assert_eq!(once, vec![0, 0]);
    assert_eq!(a.state, once);
    assert_eq!(a.prev_states.len(), 1);
}

#[test]
fn single_step_bptt_has_no_recursive_term() {
    let mut l = layer(2, HALF, ONE);
    l.forward_propagate(&[ONE], 0);
    l.compute_gradients(&[vec![ONE]], &[vec![HALF]], 1);
    assert_eq!(l.computed_output_gradients, vec![vec![HALF]]);
    // the second state neuron has no connection into the downstream layer
    assert_eq!(l.computed_recurrent_gradients, vec![vec![HALF, 0]]);
}

#[test]
fn two_step_bptt_carries_gradient_back() {
    let mut l = layer(1, HALF, ONE);
    l.forward_propagate(&[ONE], 0);
    l.forward_propagate(&[ONE], 1);
    l.compute_gradients(&[vec![ONE]], &[vec![ONE], vec![HALF]], 2);
    assert_eq!(l.computed_output_gradients, vec![vec![ONE], vec![HALF]]);
    // step 0: 1 + 0.5 * 0.5
    assert_eq!(l.computed_recurrent_gradients, vec![vec![ONE + QUARTER], vec![HALF]]);
}

#[test]
fn updates_accumulate_over_steps() {
    let mut l = layer(1, HALF, ONE);
    l.forward_propagate(&[ONE], 0);
    l.forward_propagate(&[HALF], 1);
    l.compute_gradients(&[vec![ONE]], &[vec![ONE], vec![ONE]], 2);
    // output gradients [1], [1]; recurrent gradients [1.5], [1]
    l.update_weights(HALF, 2);
    // step 0 input [0, 1], step 1 input [0.5, 0.5]
    assert_eq!(l.output_tree.weights, vec![vec![ONE + QUARTER, ONE + HALF + QUARTER]]);
    assert_eq!(l.recurrent_tree.weights, vec![vec![HALF + QUARTER, HALF + 3 * HALF / 2 + QUARTER]]);
    l.update_biases(HALF, 2);
    assert_eq!(l.output_tree.biases, vec![ONE]);
    assert_eq!(l.recurrent_tree.biases, vec![0]);
}

#[test]
fn forward_reports_cost_and_zero_gradient_for_unsupervised_steps() {
    let mut n = network(1, 0, HALF);
    let seq = vec![vec![ONE], vec![ONE]];
    let expected = vec![None, Some(vec![ONE])];
    let (cost, grads) = n.forward_propagate(&seq, Some(&expected));
    // the output is 0.5 at both steps; only step 1 is scored: (1 - 0.5)^2
    assert_eq!(cost, QUARTER);
    assert_eq!(grads, vec![vec![0], vec![HALF]]);
    assert_eq!(n.outputs, vec![vec![HALF], vec![HALF]]);
    let (none_cost, none_grads) = n.forward_propagate(&seq, None);
    assert_eq!(none_cost, 0);
    assert!(none_grads.is_empty());
}

#[test]
fn train_reports_cost_before_its_update() {
    let mut n = network(1, 0, HALF);
    let seq = vec![vec![ONE], vec![ONE]];
    let expected = vec![Some(vec![ONE]), Some(vec![ONE])];
    let before = n.forward_propagate(&seq, Some(&expected)).0;
    let reported = n.train_one_sequence(&seq, &expected, QUARTER);
    // two steps each costing 0.25, averaged over one neuron and two steps
    assert_eq!(before, HALF);
    assert_eq!(reported, QUARTER);
    let after = n.forward_propagate(&seq, Some(&expected)).0;
    assert!(after < before);
}

#[test]
fn histories_follow_the_latest_sequence() {
    let mut n = network(1, HALF, ONE);
    let long = vec![vec![ONE], vec![HALF], vec![QUARTER]];
    let long_exp = vec![Some(vec![0]), Some(vec![0]), Some(vec![0])];
    n.train_one_sequence(&long, &long_exp, 0);
    assert_eq!(n.recurrent_layer.computed_recurrent_gradients.len(), 3);
    let short = vec![vec![HALF], vec![ONE]];
    let short_exp = vec![Some(vec![0]), Some(vec![0])];
    n.train_one_sequence(&short, &short_exp, 0);
    assert_eq!(n.recurrent_layer.computed_recurrent_gradients.len(), 2);
    assert_eq!(n.recurrent_layer.computed_output_gradients.len(), 2);
    assert_eq!(n.recurrent_layer.prev_states.len(), 3);
    assert_eq!(n.recurrent_layer.sequence_inputs[0], vec![HALF]);
    assert_eq!(n.recurrent_layer.sequence_inputs[1], vec![ONE]);
    assert_eq!(n.recurrent_layer.prev_states[0], vec![0]);
    assert_eq!(n.recurrent_layer.prev_states[1], vec![QUARTER]);
    assert_eq!(n.predict(&short).len(), 2);
}

#[test]
fn predict_is_deterministic() {
    let mut a = network(2, QUARTER, HALF);
    let mut b = network(2, QUARTER, HALF);
    let seq = vec![vec![ONE], vec![-HALF], vec![QUARTER]];
    let first = a.predict(&seq).to_vec();
    let second = a.predict(&seq).to_vec();
    let other = b.predict(&seq).to_vec();
    assert_eq!(first, second);
    assert_eq!(first, other);
    assert_eq!(first.len(), 3);
    // step 0: output 0.5 * 1
    assert_eq!(first[0], vec![HALF]);
}

fn to_real(w: Weight) -> f64 {
    w as f64 / ONE as f64
}

fn cost_with_output_weight(w: Weight, seq: &[Vec<Weight>], expected: &[Option<Vec<Weight>>]) -> f64 {
    let mut n = network(1, QUARTER, HALF);
    n.recurrent_layer.output_tree.weights[0][1] = w;
    to_real(n.forward_propagate(seq, Some(expected)).0)
}

#[test]
fn output_weight_gradient_matches_finite_difference() {
    let seq = vec![vec![ONE], vec![HALF], vec![-QUARTER]];
    let expected = vec![Some(vec![QUARTER]), Some(vec![ONE]), Some(vec![-HALF])];
    let mut n = network(1, QUARTER, HALF);
    let (_, grads) = n.forward_propagate(&seq, Some(&expected));
    let weights = n.output_layer.layer.weights.clone();
    n.recurrent_layer.compute_gradients(&weights, &grads, seq.len());
    // The neuron gradient points toward the target, so the cost's slope is -2 * sum(g * x).
    let mut analytic = 0.0;
    for step in 0..seq.len() {
        analytic += to_real(n.recurrent_layer.computed_output_gradients[step][0]) * to_real(seq[step][0]);
    }
    let analytic = -2.0 * analytic;
    let h: Weight = ONE / 1024;
    let up = cost_with_output_weight(HALF + h, &seq, &expected);
    let down = cost_with_output_weight(HALF - h, &seq, &expected);
    let numeric = (up - down) / (2.0 * to_real(h));
    assert!((analytic - numeric).abs() < 1e-3, "analytic {} numeric {}", analytic, numeric);
}
