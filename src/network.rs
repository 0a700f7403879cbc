//! A recurrent layer feeding an output layer, run over whole sequences.
use vstd::prelude::*;
use crate::fixed::{Weight, fx_add, add_sat};
use crate::dense::{copy_weights, dense_grad, dense_out, rows_len, rows_of};
use crate::output::{OutputLayer, costs_spec, lemma_costs_nonneg, output_grad, total, sum_weights};
use crate::rnn::{RecurrentLayer, bptt, biased, put, self_links, trained, zeros};

verus! {

/// Targets as sequences: `None` marks an unsupervised step.
pub open spec fn targets_of(e: Seq<Option<Vec<i64>>>) -> Seq<Option<Seq<i64>>> {
    e.map_values(|o: Option<Vec<i64>>| match o {
        Some(v) => Some(v@),
        None => None,
    })
}

/// A recurrent layer whose visible output feeds an output layer.
pub struct RecurrentNetwork {
    pub recurrent_layer: RecurrentLayer,
    pub output_layer: OutputLayer,
    /// The recurrent layer's visible output at each step of the last sequence.
    pub recurrent_layer_outputs: Vec<Vec<Weight>>,
    /// The network's output at each step of the last sequence.
    pub outputs: Vec<Vec<Weight>>,
}

/// Writes `v` at index `k` of a history, appending where `k` is the history's length.
fn record(h: &mut Vec<Vec<Weight>>, k: usize, v: Vec<Weight>)
    requires
        k <= old(h)@.len(),
    ensures
        rows_of(final(h)@) == put(rows_of(old(h)@), k as int, v@),
        final(h)@.len() >= k + 1,
        final(h)@.len() >= old(h)@.len(),
{
    let ghost pre = h@;
    let ghost vv = v@;
    if k < h.len() {
        h.set(k, v);
    } else {
        h.push(v);
    }
    assert(rows_of(h@) =~= put(rows_of(pre), k as int, vv));
}

impl RecurrentNetwork {
    pub open spec fn wf(&self) -> bool {
        &&& self.recurrent_layer.wf()
        &&& self.output_layer.shaped(
            self.output_layer.layer.weights.len() as int,
            self.recurrent_layer.output_count() as int,
        )
    }

    /// Both layers' weights, biases and activations.
    pub open spec fn same_params(&self, o: &RecurrentNetwork) -> bool {
        &&& self.recurrent_layer.same_params(&o.recurrent_layer)
        &&& self.output_layer.layer.weights == o.output_layer.layer.weights
        &&& self.output_layer.layer.biases == o.output_layer.layer.biases
        &&& self.output_layer.layer.activation == o.output_layer.layer.activation
    }

    /// The recurrent layer's state after the first `k` steps of `seq`, starting from zero.
    pub open spec fn state_at(&self, seq: Seq<Seq<i64>>, k: nat) -> Seq<i64>
        decreases k,
    {
        if k == 0 {
            zeros(self.recurrent_layer.state.len() as nat)
        } else {
            let t = &self.recurrent_layer.recurrent_tree;
            dense_out(t.rows(), t.biases@, t.activation, self.state_at(seq, (k - 1) as nat) + seq[k - 1])
        }
    }

    /// The recurrent layer's visible output at step `k`.
    pub open spec fn visible_at(&self, seq: Seq<Seq<i64>>, k: nat) -> Seq<i64> {
        let t = &self.recurrent_layer.output_tree;
        dense_out(t.rows(), t.biases@, t.activation, self.state_at(seq, k) + seq[k as int])
    }

    /// The network's output at step `k`.
    pub open spec fn output_at(&self, seq: Seq<Seq<i64>>, k: nat) -> Seq<i64> {
        let l = &self.output_layer.layer;
        dense_out(l.rows(), l.biases@, l.activation, self.visible_at(seq, k))
    }

    /// The gradient handed back from step `k`: the cost gradient where the step has a target,
    /// all zero where it has none.
    pub open spec fn step_grad(&self, seq: Seq<Seq<i64>>, exp: Seq<Option<Seq<i64>>>, k: nat) -> Seq<i64> {
        match exp[k as int] {
            Some(e) => output_grad(self.output_layer.layer.activation, self.output_at(seq, k), e),
            None => zeros(self.output_layer.layer.neuron_gradients.len() as nat),
        }
    }

    pub open spec fn step_grads(&self, seq: Seq<Seq<i64>>, exp: Seq<Option<Seq<i64>>>, n: nat) -> Seq<Seq<i64>> {
        Seq::new(n, |k: int| self.step_grad(seq, exp, k as nat))
    }

    /// The summed cost of the supervised steps among the first `n`.
    pub open spec fn total_cost(&self, seq: Seq<Seq<i64>>, exp: Seq<Option<Seq<i64>>>, n: nat) -> i64
        decreases n,
    {
        if n == 0 {
            0
        } else {
            let prev = self.total_cost(seq, exp, (n - 1) as nat);
            match exp[n - 1] {
                Some(e) => {
                    let c = costs_spec(self.output_at(seq, (n - 1) as nat), e);
                    fx_add(prev, total(c, c.len()))
                },
                None => prev,
            }
        }
    }

    /// The output layer's gradients after the first `n` steps: those of the last supervised
    /// step, or `before` where none was supervised.
    pub open spec fn last_grad(&self, seq: Seq<Seq<i64>>, exp: Seq<Option<Seq<i64>>>, n: nat, before: Seq<i64>) -> Seq<i64>
        decreases n,
    {
        if n == 0 {
            before
        } else {
            match exp[n - 1] {
                Some(e) => output_grad(self.output_layer.layer.activation, self.output_at(seq, (n - 1) as nat), e),
                None => self.last_grad(seq, exp, (n - 1) as nat, before),
            }
        }
    }

    /// The output layer's costs after the first `n` steps, in the same way.
    pub open spec fn last_costs(&self, seq: Seq<Seq<i64>>, exp: Seq<Option<Seq<i64>>>, n: nat, before: Seq<i64>) -> Seq<i64>
        decreases n,
    {
        if n == 0 {
            before
        } else {
            match exp[n - 1] {
                Some(e) => costs_spec(self.output_at(seq, (n - 1) as nat), e),
                None => self.last_costs(seq, exp, (n - 1) as nat, before),
            }
        }
    }

    /// Two networks with the same weights, biases, activations and state size predict the
    /// same output at every step of a sequence.
    pub proof fn lemma_predict_deterministic(a: &RecurrentNetwork, b: &RecurrentNetwork, seq: Seq<Seq<i64>>)
        requires
            a.same_params(b),
            a.recurrent_layer.state.len() == b.recurrent_layer.state.len(),
        ensures
            forall|k: nat| k < seq.len() ==> #[trigger] a.output_at(seq, k) == b.output_at(seq, k),
    {
        assert forall|k: nat| k < seq.len() implies #[trigger] a.output_at(seq, k) == b.output_at(seq, k) by {
            Self::lemma_same_states(a, b, seq, k);
        }
    }

    proof fn lemma_same_states(a: &RecurrentNetwork, b: &RecurrentNetwork, seq: Seq<Seq<i64>>, k: nat)
        requires
            a.same_params(b),
            a.recurrent_layer.state.len() == b.recurrent_layer.state.len(),
        ensures
            a.state_at(seq, k) == b.state_at(seq, k),
        decreases k,
    {
        if k > 0 {
            Self::lemma_same_states(a, b, seq, (k - 1) as nat);
        }
    }

    /// The summed cost is never negative.
    pub proof fn lemma_total_cost_nonneg(&self, seq: Seq<Seq<i64>>, exp: Seq<Option<Seq<i64>>>, n: nat)
        ensures
            self.total_cost(seq, exp, n) >= 0,
        decreases n,
    {
        if n > 0 {
            self.lemma_total_cost_nonneg(seq, exp, (n - 1) as nat);
            match exp[n - 1] {
                Some(e) => {
                    lemma_costs_nonneg(self.output_at(seq, (n - 1) as nat), e);
                },
                None => {},
            }
        }
    }

    /// Inputs and targets that fit the layers' sizes.
    pub open spec fn fits(&self, seq: Seq<Seq<i64>>, exp: Seq<Option<Seq<i64>>>) -> bool {
        &&& rows_len(seq, self.recurrent_layer.input_count())
        &&& exp.len() >= seq.len()
        &&& forall|k: int| 0 <= k < exp.len() && (#[trigger] exp[k]) is Some ==>
            exp[k]->Some_0.len() == self.output_layer.layer.weights.len()
    }

    /// Resets the state and runs `sequence` through both layers, recording each step's outputs.
    /// With targets, returns the summed cost of the supervised steps and one gradient per step;
    /// without, zero and no gradients.
    pub fn forward_propagate(
        &mut self,
        sequence: &[Vec<Weight>],
        expected_sequence: Option<&[Option<Vec<Weight>>]>,
    ) -> (r: (Weight, Vec<Vec<Weight>>))
        requires
            old(self).wf(),
            rows_len(rows_of(sequence@), old(self).recurrent_layer.input_count()),
            expected_sequence is Some ==> old(self).fits(rows_of(sequence@), targets_of(expected_sequence->Some_0@)),
        ensures
            final(self).wf(),
            final(self).same_params(old(self)),
            ({
                let seq = rows_of(sequence@);
                let n = sequence@.len();
                &&& forall|k: int| 0 <= k < n ==> #[trigger] rows_of(final(self).outputs@)[k] == old(self).output_at(seq, k as nat)
                &&& forall|k: int| 0 <= k < n ==> #[trigger] rows_of(final(self).recurrent_layer_outputs@)[k] == old(self).visible_at(seq, k as nat)
                &&& final(self).outputs@.len() >= n
                &&& final(self).recurrent_layer_outputs@.len() >= n
                &&& forall|k: int| 0 <= k < n ==> #[trigger] final(self).recurrent_layer.states_history()[k] == old(self).state_at(seq, k as nat)
                &&& forall|k: int| 0 <= k < n ==> #[trigger] final(self).recurrent_layer.inputs_history()[k] == seq[k]
                &&& final(self).recurrent_layer.prev_states@.len() >= n
                &&& final(self).recurrent_layer.state@ == old(self).state_at(seq, n as nat)
                &&& n > 0 ==> final(self).recurrent_layer.recurrent_tree.outputs@ == old(self).state_at(seq, n as nat)
                &&& n > 0 ==> final(self).recurrent_layer.output_tree.outputs@ == old(self).visible_at(seq, (n - 1) as nat)
                &&& final(self).recurrent_layer.computed_output_gradients == old(self).recurrent_layer.computed_output_gradients
                &&& final(self).recurrent_layer.computed_recurrent_gradients == old(self).recurrent_layer.computed_recurrent_gradients
                &&& match expected_sequence {
                    Some(e) => {
                        let exp = targets_of(e@);
                        &&& r.0 == old(self).total_cost(seq, exp, n as nat)
                        &&& rows_of(r.1@) == old(self).step_grads(seq, exp, n as nat)
                        &&& final(self).output_layer.layer.neuron_gradients@ == old(self).last_grad(
                            seq, exp, n as nat, old(self).output_layer.layer.neuron_gradients@)
                        &&& final(self).output_layer.costs@ == old(self).last_costs(
                            seq, exp, n as nat, old(self).output_layer.costs@)
                    },
                    None => {
                        &&& r.0 == 0
                        &&& r.1@.len() == 0
                        &&& final(self).output_layer.layer.neuron_gradients == old(self).output_layer.layer.neuron_gradients
                    },
                }
            }),
    {
        let ghost pre = *self;
        let ghost seq = rows_of(sequence@);
        let ghost exp = match expected_sequence {
            Some(e) => targets_of(e@),
            None => Seq::empty(),
        };
        self.recurrent_layer.reset();
        assert(self.recurrent_layer.state@ == pre.state_at(seq, 0));

        let mut output_gradients: Vec<Vec<Weight>> = Vec::new();
        let mut total_costs: Weight = 0;
        let mut step_ix: usize = 0;
        while step_ix < sequence.len()
            invariant
                step_ix <= sequence.len(),
                seq == rows_of(sequence@),
                rows_len(seq, pre.recurrent_layer.input_count()),
                expected_sequence is Some ==> exp == targets_of(expected_sequence->Some_0@),
                expected_sequence is Some ==> pre.fits(seq, exp),
                pre.wf(),
                self.wf(),
                self.same_params(&pre),
                self.recurrent_layer.state.len() == pre.recurrent_layer.state.len(),
                self.recurrent_layer.combined_inputs_scratch.len() == pre.recurrent_layer.combined_inputs_scratch.len(),
                self.output_layer.layer.neuron_gradients.len() == pre.output_layer.layer.neuron_gradients.len(),
                self.recurrent_layer.state@ == pre.state_at(seq, step_ix as nat),
                step_ix > 0 ==> self.recurrent_layer.recurrent_tree.outputs@ == pre.state_at(seq, step_ix as nat),
                step_ix > 0 ==> self.recurrent_layer.output_tree.outputs@ == pre.visible_at(seq, (step_ix - 1) as nat),
                self.outputs@.len() >= step_ix,
                self.recurrent_layer_outputs@.len() >= step_ix,
                self.recurrent_layer.prev_states@.len() >= step_ix,
                forall|k: int| 0 <= k < step_ix ==> #[trigger] rows_of(self.outputs@)[k] == pre.output_at(seq, k as nat),
                forall|k: int| 0 <= k < step_ix ==> #[trigger] rows_of(self.recurrent_layer_outputs@)[k] == pre.visible_at(seq, k as nat),
                forall|k: int| 0 <= k < step_ix ==> #[trigger] self.recurrent_layer.states_history()[k] == pre.state_at(seq, k as nat),
                forall|k: int| 0 <= k < step_ix ==> #[trigger] self.recurrent_layer.inputs_history()[k] == seq[k],
                self.recurrent_layer.computed_output_gradients == pre.recurrent_layer.computed_output_gradients,
                self.recurrent_layer.computed_recurrent_gradients == pre.recurrent_layer.computed_recurrent_gradients,
                expected_sequence is Some ==> total_costs == pre.total_cost(seq, exp, step_ix as nat),
                expected_sequence is Some ==> rows_of(output_gradients@) == pre.step_grads(seq, exp, step_ix as nat),
                expected_sequence is Some ==> self.output_layer.layer.neuron_gradients@ == pre.last_grad(
                    seq, exp, step_ix as nat, pre.output_layer.layer.neuron_gradients@),
                expected_sequence is Some ==> self.output_layer.costs@ == pre.last_costs(
                    seq, exp, step_ix as nat, pre.output_layer.costs@),
                expected_sequence is None ==> total_costs == 0,
                expected_sequence is None ==> output_gradients@.len() == 0,
                expected_sequence is None ==> self.output_layer.layer.neuron_gradients == pre.output_layer.layer.neuron_gradients,
            decreases sequence.len() - step_ix,
        {
            assert(sequence@[step_ix as int]@ == seq[step_ix as int]);
            let ghost before = *self;
            let ghost g_before = output_gradients@;
            self.recurrent_layer.forward_propagate(sequence[step_ix].as_slice(), step_ix);
            assert(self.recurrent_layer.state@ == pre.state_at(seq, (step_ix + 1) as nat));
            assert(self.recurrent_layer.states_history().len() == self.recurrent_layer.prev_states@.len());
            let visible = copy_weights(self.recurrent_layer.get_outputs());
            assert(visible@ == pre.visible_at(seq, step_ix as nat));
            self.output_layer.forward_propagate(&visible);
            assert(self.output_layer.layer.outputs@ == pre.output_at(seq, step_ix as nat));
            let out = copy_weights(self.output_layer.layer.outputs.as_slice());
            record(&mut self.outputs, step_ix, out);
            record(&mut self.recurrent_layer_outputs, step_ix, visible);
            assert forall|k: int| 0 <= k <= step_ix implies #[trigger] rows_of(self.outputs@)[k] == pre.output_at(seq, k as nat) by {
                if k < step_ix {
                    assert(rows_of(before.outputs@)[k] == pre.output_at(seq, k as nat));
                }
            }
            assert forall|k: int| 0 <= k <= step_ix implies #[trigger] rows_of(self.recurrent_layer_outputs@)[k] == pre.visible_at(seq, k as nat) by {
                if k < step_ix {
                    assert(rows_of(before.recurrent_layer_outputs@)[k] == pre.visible_at(seq, k as nat));
                }
            }
            assert forall|k: int| 0 <= k <= step_ix implies #[trigger] self.recurrent_layer.states_history()[k] == pre.state_at(seq, k as nat) by {
                if k < step_ix {
                    assert(before.recurrent_layer.states_history()[k] == pre.state_at(seq, k as nat));
                }
            }
            assert forall|k: int| 0 <= k <= step_ix implies #[trigger] self.recurrent_layer.inputs_history()[k] == seq[k] by {
                if k < step_ix {
                    assert(before.recurrent_layer.inputs_history()[k] == seq[k]);
                }
            }
            match expected_sequence {
                Some(e) => {
                    assert(exp[step_ix as int] == match e@[step_ix as int] {
                        Some(v) => Some(v@),
                        None => None::<Seq<i64>>,
                    });
                    let g: Vec<Weight> = match &e[step_ix] {
                        Some(t) => {
                            assert(exp[step_ix as int] == Some(t@));
                            self.output_layer.compute_costs(t);
                            let c = sum_weights(&self.output_layer.costs);
                            total_costs = add_sat(total_costs, c);
                            self.output_layer.compute_gradients(t);
                            let g = copy_weights(self.output_layer.layer.neuron_gradients.as_slice());
                            assert(g@ == pre.step_grad(seq, exp, step_ix as nat));
                            g
                        },
                        None => {
                            let z: Vec<Weight> = vec![0; self.output_layer.layer.neuron_gradients.len()];
                            assert(z@ =~= zeros(pre.output_layer.layer.neuron_gradients.len() as nat));
                            assert(z@ == pre.step_grad(seq, exp, step_ix as nat));
                            z
                        },
                    };
                    let ghost gv = g@;
                    assert(gv == pre.step_grad(seq, exp, step_ix as nat));
                    output_gradients.push(g);
                    assert(rows_of(output_gradients@) =~= pre.step_grads(seq, exp, (step_ix + 1) as nat)) by {
                        assert(rows_of(g_before) == pre.step_grads(seq, exp, step_ix as nat));
                        assert(output_gradients@ == g_before.push(output_gradients@[step_ix as int]));
                        assert(output_gradients@[step_ix as int]@ == gv);
                        assert forall|k: int| 0 <= k < step_ix implies rows_of(output_gradients@)[k] == pre.step_grad(seq, exp, k as nat) by {
                            assert(rows_of(g_before)[k] == pre.step_grads(seq, exp, step_ix as nat)[k]);
                            assert(output_gradients@[k] == g_before[k]);
                        }
                    }
                },
                None => {},
            }
            step_ix = step_ix + 1;
        }
        (total_costs, output_gradients)
    }

    /// The combined input of step `k`: the state before the step, then the step's input.
    pub open spec fn input_at(&self, seq: Seq<Seq<i64>>, k: nat) -> Seq<i64> {
        self.state_at(seq, k) + seq[k as int]
    }

    /// Runs `sequence` against its targets, backpropagates through time and applies one
    /// update to every weight of both layers and to the recurrent layer's output biases.
    /// The output layer is updated once per step, from the recurrent layer's visible output at
    /// that step and the gradients the output layer was left with by the forward pass.
    /// Returns the cost before the update, averaged over output neurons and steps.
    pub fn train_one_sequence(
        &mut self,
        sequence: &[Vec<Weight>],
        expected_sequence: &[Option<Vec<Weight>>],
        learning_rate: Weight,
    ) -> (r: Weight)
        requires
            old(self).wf(),
            1 <= sequence@.len(),
            sequence@.len() == expected_sequence@.len(),
            rows_len(rows_of(sequence@), old(self).recurrent_layer.input_count()),
            old(self).fits(rows_of(sequence@), targets_of(expected_sequence@)),
            old(self).output_layer.layer.weights.len() >= 1,
        ensures
            final(self).wf(),
            ({
                let seq = rows_of(sequence@);
                let exp = targets_of(expected_sequence@);
                let n = sequence@.len() as nat;
                let pre = old(self);
                let rl = &final(self).recurrent_layer;
                let gs = pre.step_grads(seq, exp, n);
                let nw = pre.output_layer.layer.rows();
                &&& r as int == (pre.total_cost(seq, exp, n) as int) / (pre.output_layer.layer.weights.len() as int) / (n as int)
                &&& forall|k: int| 0 <= k < n ==> #[trigger] rows_of(final(self).outputs@)[k] == pre.output_at(seq, k as nat)
                &&& rl.output_grads() == Seq::new(n, |i: int| dense_grad(
                    pre.recurrent_layer.output_tree.activation,
                    pre.visible_at(seq, (n - 1) as nat),
                    nw,
                    gs[i],
                ))
                &&& rl.recurrent_grads() == Seq::new(n, |i: int| bptt(
                    pre.recurrent_layer.recurrent_tree.activation,
                    pre.state_at(seq, n),
                    self_links(pre.recurrent_layer.recurrent_tree.rows(), pre.recurrent_layer.state@.len() as int),
                    nw,
                    gs,
                    n as int,
                    i,
                ))
                &&& rl.output_tree.rows() == trained(
                    pre.recurrent_layer.output_tree.rows(),
                    rl.output_grads(),
                    Seq::new(n, |k: int| pre.input_at(seq, k as nat)),
                    learning_rate,
                    n,
                )
                &&& rl.recurrent_tree.rows() == trained(
                    pre.recurrent_layer.recurrent_tree.rows(),
                    rl.recurrent_grads(),
                    Seq::new(n, |k: int| pre.input_at(seq, k as nat)),
                    learning_rate,
                    n,
                )
                &&& rl.output_tree.biases@ == biased(pre.recurrent_layer.output_tree.biases@, rl.output_grads(), learning_rate, n)
                &&& rl.recurrent_tree.biases == pre.recurrent_layer.recurrent_tree.biases
                &&& final(self).output_layer.layer.rows() == trained(
                    nw,
                    Seq::new(n, |k: int| pre.last_grad(seq, exp, n, pre.output_layer.layer.neuron_gradients@)),
                    Seq::new(n, |k: int| pre.visible_at(seq, k as nat)),
                    learning_rate,
                    n,
                )
                &&& final(self).output_layer.layer.biases == pre.output_layer.layer.biases
            }),
    {
        let ghost pre = *self;
        let ghost seq = rows_of(sequence@);
        let ghost exp = targets_of(expected_sequence@);
        let ghost n = sequence@.len() as nat;
        let (total_cost, output_gradients) = self.forward_propagate(sequence, Some(expected_sequence));
        let ghost mid = *self;
        proof {
            pre.lemma_total_cost_nonneg(seq, exp, n);
            assert forall|k: int| 0 <= k < n implies #[trigger] rows_of(output_gradients@)[k].len() == self.output_layer.layer.weights.len() by {
                assert(rows_of(output_gradients@)[k] == pre.step_grad(seq, exp, k as nat));
            }
        }
        assert(rows_of(output_gradients@).len() == output_gradients@.len());
        self.recurrent_layer.compute_gradients(
            self.output_layer.layer.weights.as_slice(),
            output_gradients.as_slice(),
            sequence.len(),
        );
        let ghost after_bptt = *self;
        assert(self.recurrent_layer.output_grads().len() == self.recurrent_layer.computed_output_gradients@.len());
        assert(self.recurrent_layer.recurrent_grads().len() == self.recurrent_layer.computed_recurrent_gradients@.len());
        let mut i: usize = 0;
        while i < sequence.len()
            invariant
                i <= sequence.len(),
                n == sequence@.len(),
                self.wf(),
                self.recurrent_layer == after_bptt.recurrent_layer,
                self.recurrent_layer.output_tree.weights.len() == pre.recurrent_layer.output_tree.weights.len(),
                self.recurrent_layer_outputs == mid.recurrent_layer_outputs,
                self.outputs == mid.outputs,
                mid.recurrent_layer_outputs@.len() >= n,
                forall|k: int| 0 <= k < n ==> #[trigger] rows_of(mid.recurrent_layer_outputs@)[k] == pre.visible_at(seq, k as nat),
                self.output_layer.layer.neuron_gradients == mid.output_layer.layer.neuron_gradients,
                self.output_layer.layer.biases == pre.output_layer.layer.biases,
                self.output_layer.layer.activation == pre.output_layer.layer.activation,
                mid.output_layer.layer.neuron_gradients@ == pre.last_grad(seq, exp, n, pre.output_layer.layer.neuron_gradients@),
                self.output_layer.layer.rows() == trained(
                    pre.output_layer.layer.rows(),
                    Seq::new(n, |k: int| pre.last_grad(seq, exp, n, pre.output_layer.layer.neuron_gradients@)),
                    Seq::new(n, |k: int| pre.visible_at(seq, k as nat)),
                    learning_rate,
                    i as nat,
                ),
            decreases sequence.len() - i,
        {
            assert(rows_of(mid.recurrent_layer_outputs@)[i as int] == pre.visible_at(seq, i as nat));
            assert(self.recurrent_layer_outputs@[i as int]@ == pre.visible_at(seq, i as nat));
            assert(pre.visible_at(seq, i as nat).len() == pre.recurrent_layer.output_tree.rows().len());
            self.output_layer.update_weights(&self.recurrent_layer_outputs[i], learning_rate);
            i = i + 1;
        }
        let ghost xs = Seq::new(n, |k: int| pre.input_at(seq, k as nat));
        proof {
            let rl = &self.recurrent_layer;
            assert forall|k: int| 0 <= k < n implies #[trigger] rl.step_inputs(n)[k] == xs[k] by {
                assert(rl.states_history()[k] == pre.state_at(seq, k as nat));
                assert(rl.inputs_history()[k] == seq[k]);
                if k == 0 {
                    assert(pre.state_at(seq, 0) == zeros(pre.recurrent_layer.state.len() as nat));
                }
            }
            assert(rl.step_inputs(n) =~= xs);
        }
        self.recurrent_layer.update_weights(learning_rate, sequence.len());
        self.recurrent_layer.update_biases(learning_rate, sequence.len());
        proof {
            let gs = pre.step_grads(seq, exp, n);
            let nw = pre.output_layer.layer.rows();
            assert(rows_of(output_gradients@) == gs);
            assert(self.recurrent_layer.output_grads() == Seq::new(n, |i: int| dense_grad(
                pre.recurrent_layer.output_tree.activation,
                pre.visible_at(seq, (n - 1) as nat),
                nw,
                gs[i],
            )));
            assert(self.recurrent_layer.recurrent_grads() == Seq::new(n, |i: int| bptt(
                pre.recurrent_layer.recurrent_tree.activation,
                pre.state_at(seq, n),
                self_links(pre.recurrent_layer.recurrent_tree.rows(), pre.recurrent_layer.state@.len() as int),
                nw,
                gs,
                n as int,
                i,
            )));
        }
        let c = self.output_layer.costs.len() as u64;
        let len = sequence.len() as u64;
        let avg: u64 = (total_cost as u64 / c) / len;
        assert(avg <= total_cost) by (nonlinear_arith)
            requires
                avg == (total_cost as u64 / c) / len,
                total_cost >= 0,
                c >= 1,
                len >= 1,
        ;
        avg as Weight
    }

    /// Runs `sequence` without targets and returns the network's output at each step.
    pub fn predict(&mut self, sequence: &[Vec<Weight>]) -> (r: &[Vec<Weight>])
        requires
            old(self).wf(),
            rows_len(rows_of(sequence@), old(self).recurrent_layer.input_count()),
        ensures
            final(self).wf(),
            final(self).same_params(old(self)),
            r@.len() == sequence@.len(),
            forall|k: int| 0 <= k < sequence@.len() ==> #[trigger] r@[k]@ == old(self).output_at(rows_of(sequence@), k as nat),
    {
        self.forward_propagate(sequence, None);
        let r = vstd::slice::slice_subrange(self.outputs.as_slice(), 0, sequence.len());
        proof {
            assert forall|k: int| 0 <= k < sequence@.len() implies #[trigger] r@[k]@ == old(self).output_at(rows_of(sequence@), k as nat) by {
                assert(rows_of(self.outputs@)[k] == old(self).output_at(rows_of(sequence@), k as nat));
            }
        }
        r
    }
}

} // verus!
