//! The terminal layer of a network: a dense layer scored against a target.
use vstd::prelude::*;
use crate::fixed::{Weight, fx_add, fx_sub, fx_mul, add_sat, sub_sat, mul_fixed};
use crate::dense::{Activation, DenseLayer, copy_weights, rows_len};

verus! {

/// How an output is scored against its target.
#[derive(Clone, Copy, Debug, PartialEq, Eq, Structural)]
pub enum CostFunction {
    /// Each neuron costs the square of its distance from the target.
    MeanSquaredError,
}

/// Per-neuron costs of outputs `outs` against `expected`.
pub open spec fn costs_spec(outs: Seq<i64>, expected: Seq<i64>) -> Seq<i64> {
    Seq::new(outs.len(), |j: int| fx_mul(fx_sub(expected[j], outs[j]), fx_sub(expected[j], outs[j])))
}

/// Per-neuron gradients of the cost, signed toward the target.
pub open spec fn output_grad(act: Activation, outs: Seq<i64>, expected: Seq<i64>) -> Seq<i64> {
    Seq::new(outs.len(), |j: int| fx_mul(act.derivative_spec(outs[j]), fx_sub(expected[j], outs[j])))
}

/// Saturating sum of the first `n` entries of `s`, left to right.
pub open spec fn total(s: Seq<i64>, n: nat) -> i64
    decreases n,
{
    if n == 0 {
        0
    } else {
        fx_add(total(s, (n - 1) as nat), s[n - 1])
    }
}

/// A square never costs below zero.
pub proof fn lemma_square_nonneg(d: i64)
    ensures
        fx_mul(d, d) >= 0,
{
    assert((d as int) * (d as int) >= 0) by (nonlinear_arith);
}

/// A sum of non-negative entries is non-negative.
pub proof fn lemma_total_nonneg(s: Seq<i64>, n: nat)
    requires
        n <= s.len(),
        forall|k: int| 0 <= k < n ==> s[k] >= 0,
    ensures
        total(s, n) >= 0,
    decreases n,
{
    if n > 0 {
        lemma_total_nonneg(s, (n - 1) as nat);
    }
}

/// Costs are non-negative.
pub proof fn lemma_costs_nonneg(outs: Seq<i64>, expected: Seq<i64>)
    ensures
        total(costs_spec(outs, expected), outs.len()) >= 0,
{
    let c = costs_spec(outs, expected);
    assert forall|k: int| 0 <= k < outs.len() implies c[k] >= 0 by {
        lemma_square_nonneg(fx_sub(expected[k], outs[k]));
    }
    lemma_total_nonneg(c, outs.len());
}

pub fn sum_weights(s: &Vec<Weight>) -> (r: Weight)
    ensures
        r == total(s@, s@.len()),
{
    let mut acc: Weight = 0;
    let mut i: usize = 0;
    while i < s.len()
        invariant
            i <= s.len(),
            acc == total(s@, i as nat),
        decreases s.len() - i,
    {
        acc = add_sat(acc, s[i]);
        i = i + 1;
    }
    acc
}

/// A dense layer with no bias updates whose outputs are compared against targets.
pub struct OutputLayer {
    pub layer: DenseLayer,
    pub cost_function: CostFunction,
    /// Per-neuron costs of the most recent cost computation.
    pub costs: Vec<Weight>,
}

impl OutputLayer {
    /// `output_size` neurons reading `input_size` inputs.
    pub open spec fn shaped(&self, output_size: int, input_size: int) -> bool {
        &&& self.layer.shaped(output_size, input_size)
        &&& self.costs.len() == output_size
    }

    /// Builds an output layer with zero biases and weights from `init_weights`.
    pub fn new<FW: Fn(usize, usize) -> Weight>(
        activation: Activation,
        cost_function: CostFunction,
        init_weights: &FW,
        input_size: usize,
        output_size: usize,
    ) -> (r: OutputLayer)
        requires
            forall|j: usize, i: usize| j < output_size && i < input_size ==> init_weights.requires((j, i)),
        ensures
            r.shaped(output_size as int, input_size as int),
            r.layer.activation == activation,
            r.cost_function == cost_function,
            forall|j: int, i: int| 0 <= j < output_size && 0 <= i < input_size ==>
                init_weights.ensures((j as usize, i as usize), #[trigger] r.layer.rows()[j][i]),
            r.layer.biases@ == Seq::new(output_size as nat, |j: int| 0i64),
    {
        let zero_bias = |_j: usize| -> (b: Weight)
            ensures
                b == 0,
        { 0 };
        let layer = DenseLayer::new(output_size, input_size, init_weights, &zero_bias, activation);
        assert(layer.biases@ =~= Seq::new(output_size as nat, |j: int| 0i64));
        OutputLayer { layer, cost_function, costs: vec![0; output_size] }
    }

    pub fn forward_propagate(&mut self, x: &Vec<Weight>)
        requires
            old(self).layer.shaped(old(self).layer.weights.len() as int, x.len() as int),
        ensures
            final(self).layer.outputs@ == crate::dense::dense_out(
                old(self).layer.rows(),
                old(self).layer.biases@,
                old(self).layer.activation,
                x@,
            ),
            final(self).layer.weights == old(self).layer.weights,
            final(self).layer.biases == old(self).layer.biases,
            final(self).layer.activation == old(self).layer.activation,
            final(self).layer.neuron_gradients == old(self).layer.neuron_gradients,
            final(self).costs == old(self).costs,
            final(self).cost_function == old(self).cost_function,
    {
        self.layer.forward_propagate(x);
    }

    /// Scores the current outputs against `expected`, leaving one cost per neuron in `costs`.
    pub fn compute_costs(&mut self, expected: &Vec<Weight>)
        requires
            expected.len() == old(self).layer.outputs.len(),
        ensures
            final(self).costs@ == costs_spec(old(self).layer.outputs@, expected@),
            final(self).layer == old(self).layer,
            final(self).cost_function == old(self).cost_function,
    {
        let mut c: Vec<Weight> = Vec::new();
        let mut j: usize = 0;
        while j < self.layer.outputs.len()
            invariant
                j <= self.layer.outputs.len(),
                expected.len() == self.layer.outputs.len(),
                c@ =~= costs_spec(self.layer.outputs@, expected@).subrange(0, j as int),
            decreases self.layer.outputs.len() - j,
        {
            let d = sub_sat(expected[j], self.layer.outputs[j]);
            c.push(mul_fixed(d, d));
            j = j + 1;
        }
        self.costs = c;
    }

    /// Computes the per-neuron gradients of the cost against `expected` into the layer.
    pub fn compute_gradients(&mut self, expected: &Vec<Weight>)
        requires
            expected.len() == old(self).layer.outputs.len(),
        ensures
            final(self).layer.neuron_gradients@ == output_grad(
                old(self).layer.activation,
                old(self).layer.outputs@,
                expected@,
            ),
            final(self).layer.weights == old(self).layer.weights,
            final(self).layer.biases == old(self).layer.biases,
            final(self).layer.activation == old(self).layer.activation,
            final(self).layer.outputs == old(self).layer.outputs,
            final(self).costs == old(self).costs,
            final(self).cost_function == old(self).cost_function,
    {
        let mut g: Vec<Weight> = Vec::new();
        let mut j: usize = 0;
        while j < self.layer.outputs.len()
            invariant
                j <= self.layer.outputs.len(),
                expected.len() == self.layer.outputs.len(),
                g@ =~= output_grad(self.layer.activation, self.layer.outputs@, expected@).subrange(0, j as int),
            decreases self.layer.outputs.len() - j,
        {
            let d = self.layer.activation.derivative(self.layer.outputs[j]);
            g.push(mul_fixed(d, sub_sat(expected[j], self.layer.outputs[j])));
            j = j + 1;
        }
        self.layer.neuron_gradients = g;
    }

    /// Adds `lr * g[j] * x[i]` to each weight, with `g` the layer's current neuron gradients.
    pub fn update_weights(&mut self, x: &Vec<Weight>, lr: Weight)
        requires
            old(self).layer.neuron_gradients.len() == old(self).layer.weights.len(),
            rows_len(old(self).layer.rows(), x.len() as int),
        ensures
            final(self).layer.rows() == crate::dense::nudged(
                old(self).layer.rows(),
                old(self).layer.neuron_gradients@,
                x@,
                lr,
            ),
            final(self).layer.weights.len() == old(self).layer.weights.len(),
            final(self).layer.biases == old(self).layer.biases,
            final(self).layer.activation == old(self).layer.activation,
            final(self).layer.outputs == old(self).layer.outputs,
            final(self).layer.neuron_gradients == old(self).layer.neuron_gradients,
            final(self).costs == old(self).costs,
            final(self).cost_function == old(self).cost_function,
    {
        let g = copy_weights(self.layer.neuron_gradients.as_slice());
        self.layer.nudge_weights(&g, x, lr);
    }
}

} // verus!
