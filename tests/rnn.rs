use std::cell::Cell;

use libnn::dense::Activation;
use libnn::fixed::{Weight, ONE};
use libnn::network::RecurrentNetwork;
use libnn::output::{CostFunction, OutputLayer};
use libnn::rnn::RecurrentLayer;

/// A small linear congruential generator, enough for initial weights and toy sequences.
struct Lcg {
    seed: Cell<u64>,
}

impl Lcg {
    fn new(seed: u64) -> Lcg {
        Lcg { seed: Cell::new(seed) }
    }

    fn next_unit(&self) -> f64 {
        let s = self
            .seed
            .get()
            .wrapping_mul(6364136223846793005)
            .wrapping_add(1442695040888963407);
        self.seed.set(s);
        (s >> 11) as f64 / (1u64 << 53) as f64
    }

    fn gen_range(&self, lo: f64, hi: f64) -> f64 {
        lo + (hi - lo) * self.next_unit()
    }
}

fn fx(x: f64) -> Weight {
    (x * ONE as f64).round() as Weight
}

fn build_test_network(rng: &Lcg, input_size: usize, output_size: usize, state_size: usize) -> RecurrentNetwork {
    let init_recurrent_weights = |_output_ix: usize, _input_ix: usize| -> Weight { fx(rng.gen_range(0.0, 0.1)) };
    let init_recurrent_biases = |_output_ix: usize| -> Weight { 0 };
    let init_output_weights = |_output_ix: usize, _input_ix: usize| -> Weight { fx(rng.gen_range(0.0, 0.1)) };
    let init_output_biases = |_output_ix: usize| -> Weight { 0 };

    RecurrentNetwork {
        recurrent_layer: RecurrentLayer::new(
            output_size,
            input_size,
            &init_recurrent_weights,
            &init_recurrent_biases,
            Activation::Identity,
            &init_output_weights,
            &init_output_biases,
            Activation::Identity,
            state_size,
        ),
        output_layer: OutputLayer::new(
            Activation::Identity,
            CostFunction::MeanSquaredError,
            &|_: usize, _: usize| -> Weight { ONE },
            input_size,
            output_size,
        ),
        outputs: Vec::new(),
        recurrent_layer_outputs: Vec::new(),
    }
}

fn seq(values: &[f64]) -> Vec<Vec<Weight>> {
    values.iter().map(|v| vec![fx(*v)]).collect()
}

fn targets(values: &[f64]) -> Vec<Option<Vec<Weight>>> {
    values.iter().map(|v| Some(vec![fx(*v)])).collect()
}

/// Optimize the weights of the output tree towards zero for all inputs.
#[test]
fn rnn_sanity_output_zero() {
    let rng = Lcg::new(1);
    let learning_rate = fx(0.25);
    let mut network = build_test_network(&rng, 1, 1, 1);

    let training_sequence = seq(&[1.0, 0.5]);
    let expected_outputs = targets(&[0.0, 0.0]);

    let (initial_total_cost, _output_gradients) =
        network.forward_propagate(&training_sequence, Some(&expected_outputs));
    println!("initial cost before training: {}", initial_total_cost);
    println!("initial outputs before training: {:?}", network.outputs);

    let mut last_iter_cost = initial_total_cost;
    for i in 0..10 {
        let new_cost = network.train_one_sequence(&training_sequence, &expected_outputs, learning_rate);
        println!("[{}] cost: {}", i, new_cost);
        println!("[{}] outputs: {:?}", i, network.outputs);
        last_iter_cost = new_cost;
    }
    assert!(last_iter_cost < fx(0.0001));
}

/// Output the current value in the sequence.
#[test]
fn rnn_sanity_output_identity() {
    let rng = Lcg::new(2);
    let learning_rate = fx(0.05);
    let mut network = build_test_network(&rng, 1, 1, 1);

    let training_sequence = seq(&[1.0, 0.5, 1.0, 0.5]);
    let expected_outputs = targets(&[1.0, 0.5, 1.0, 0.5]);

    let (initial_total_cost, _output_gradients) =
        network.forward_propagate(&training_sequence, Some(&expected_outputs));
    println!("initial cost before training: {}", initial_total_cost);
    println!("initial outputs before training: {:?}", network.outputs);

    let mut last_iter_cost = initial_total_cost;
    for i in 0..300 {
        let new_cost = network.train_one_sequence(&training_sequence, &expected_outputs, learning_rate);
        println!("[{}] cost: {}", i, new_cost);
        println!("[{}] outputs: {:?}", i, network.outputs);
        last_iter_cost = new_cost;
    }
    assert!(last_iter_cost < fx(0.0001));
}

#[test]
fn rnn_memory_conditional() {
    let rng = Lcg::new(5);
    let network = build_test_network(&rng, 1, 1, 4);
    assert_eq!(network.recurrent_layer.state, vec![0; 4]);
}
