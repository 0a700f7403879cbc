//! The recurrent layer: hidden state threaded across a sequence, per-step
//! history, and backpropagation through time.
use vstd::prelude::*;
use crate::fixed::{Weight, fx_add, fx_mul, add_sat, mul_fixed};
use crate::dense::{Activation, DenseLayer, copy_weights, dense_grad, dense_out, nudged, rows_len, rows_of};

verus! {

/// `n` zeros.
pub open spec fn zeros(n: nat) -> Seq<i64> {
    Seq::new(n, |i: int| 0i64)
}

/// Writes `v` at index `k` of a history: overwrites an existing slot, appends past the end.
pub open spec fn put(h: Seq<Seq<i64>>, k: int, v: Seq<i64>) -> Seq<Seq<i64>> {
    if k < h.len() {
        h.update(k, v)
    } else {
        h.push(v)
    }
}

/// The first `s` columns of each row: the weights that connect the state back to itself.
pub open spec fn self_links(rows: Seq<Seq<i64>>, s: int) -> Seq<Seq<i64>> {
    Seq::new(rows.len(), |j: int| rows[j].subrange(0, s))
}

/// Entry-by-entry saturating sum.
pub open spec fn plus(a: Seq<i64>, b: Seq<i64>) -> Seq<i64> {
    Seq::new(a.len(), |j: int| fx_add(a[j], b[j]))
}

/// Gradient of the state-producing neurons at step `i` of a sequence of `n` steps: the
/// downstream output path, plus for every step but the last the gradient of step `i + 1`
/// carried back through the self-connections `links`.
pub open spec fn bptt(
    act: Activation,
    outs: Seq<i64>,
    links: Seq<Seq<i64>>,
    next_w: Seq<Seq<i64>>,
    gs: Seq<Seq<i64>>,
    n: int,
    i: int,
) -> Seq<i64>
    decreases n - i,
{
    if i >= n - 1 {
        dense_grad(act, outs, next_w, gs[i])
    } else {
        plus(dense_grad(act, outs, next_w, gs[i]), dense_grad(act, outs, links, bptt(act, outs, links, next_w, gs, n, i + 1)))
    }
}

/// In a sequence of one step nothing comes after the first step, so its state-neuron gradient
/// is exactly the output-path gradient.
pub proof fn lemma_single_step_bptt(
    act: Activation,
    outs: Seq<i64>,
    links: Seq<Seq<i64>>,
    next_w: Seq<Seq<i64>>,
    gs: Seq<Seq<i64>>,
)
    ensures
        bptt(act, outs, links, next_w, gs, 1, 0) == dense_grad(act, outs, next_w, gs[0]),
{
}

/// Resetting an already reset state leaves it as it is: both give all zeros.
pub proof fn lemma_reset_idempotent(state: Seq<i64>)
    ensures
        zeros(zeros(state.len()).len()) == zeros(state.len()),
{
}

/// The weights after the updates of the first `n` steps, step `k` with gradient `gs[k]` and
/// input `xs[k]`.
pub open spec fn trained(rows: Seq<Seq<i64>>, gs: Seq<Seq<i64>>, xs: Seq<Seq<i64>>, lr: i64, n: nat) -> Seq<Seq<i64>>
    decreases n,
{
    if n == 0 {
        rows
    } else {
        nudged(trained(rows, gs, xs, lr, (n - 1) as nat), gs[n - 1], xs[n - 1], lr)
    }
}

/// The biases after the updates of the first `n` steps: `b[j] += gs[k][j] * lr`.
pub open spec fn biased(b: Seq<i64>, gs: Seq<Seq<i64>>, lr: i64, n: nat) -> Seq<i64>
    decreases n,
{
    if n == 0 {
        b
    } else {
        let prev = biased(b, gs, lr, (n - 1) as nat);
        Seq::new(b.len(), |j: int| fx_add(prev[j], fx_mul(gs[n - 1][j], lr)))
    }
}

/// A layer with hidden state: at each step it reads its previous state and the step's input,
/// emits a visible output and replaces its state.
pub struct RecurrentLayer {
    pub state: Vec<Weight>,
    /// Produces the next state.
    pub recurrent_tree: DenseLayer,
    /// Produces the visible output.
    pub output_tree: DenseLayer,
    /// The current step's state followed by its input.
    pub combined_inputs_scratch: Vec<Weight>,
    pub sequence_inputs: Vec<Vec<Weight>>,
    pub prev_states: Vec<Vec<Weight>>,
    /// Gradients of the state-producing neurons, one entry per step of the last backward pass.
    pub computed_recurrent_gradients: Vec<Vec<Weight>>,
    /// Gradients of the output neurons, one entry per step of the last backward pass.
    pub computed_output_gradients: Vec<Vec<Weight>>,
}

impl RecurrentLayer {
    pub open spec fn state_size(&self) -> nat {
        self.state.len() as nat
    }

    pub open spec fn input_count(&self) -> int {
        self.combined_inputs_scratch.len() - self.state.len()
    }

    pub open spec fn output_count(&self) -> nat {
        self.output_tree.weights.len() as nat
    }

    pub open spec fn inputs_history(&self) -> Seq<Seq<i64>> {
        rows_of(self.sequence_inputs@)
    }

    pub open spec fn states_history(&self) -> Seq<Seq<i64>> {
        rows_of(self.prev_states@)
    }

    pub open spec fn recurrent_grads(&self) -> Seq<Seq<i64>> {
        rows_of(self.computed_recurrent_gradients@)
    }

    pub open spec fn output_grads(&self) -> Seq<Seq<i64>> {
        rows_of(self.computed_output_gradients@)
    }

    /// The sizes that hold between the state, the two sublayers and the histories.
    pub open spec fn wf(&self) -> bool {
        &&& self.state.len() <= self.combined_inputs_scratch.len()
        &&& self.recurrent_tree.shaped(self.state.len() as int, self.combined_inputs_scratch.len() as int)
        &&& self.output_tree.shaped(self.output_tree.weights.len() as int, self.combined_inputs_scratch.len() as int)
        &&& self.prev_states.len() == self.sequence_inputs.len()
        &&& rows_len(self.states_history(), self.state.len() as int)
        &&& rows_len(self.inputs_history(), self.input_count())
        &&& rows_len(self.output_grads(), self.output_count() as int)
        &&& rows_len(self.recurrent_grads(), self.state.len() as int)
    }

    /// The weights, biases and activations of both sublayers.
    pub open spec fn same_params(&self, o: &RecurrentLayer) -> bool {
        &&& self.recurrent_tree.weights == o.recurrent_tree.weights
        &&& self.recurrent_tree.biases == o.recurrent_tree.biases
        &&& self.recurrent_tree.activation == o.recurrent_tree.activation
        &&& self.output_tree.weights == o.output_tree.weights
        &&& self.output_tree.biases == o.output_tree.biases
        &&& self.output_tree.activation == o.output_tree.activation
    }

    /// The combined input in effect at step `k` of the last sequence: the state before the
    /// step (zero at the first step), then the step's input.
    pub open spec fn step_input(&self, k: int) -> Seq<i64> {
        (if k == 0 { zeros(self.state.len() as nat) } else { self.states_history()[k] }) + self.inputs_history()[k]
    }

    pub open spec fn step_inputs(&self, n: nat) -> Seq<Seq<i64>> {
        Seq::new(n, |k: int| self.step_input(k))
    }

    /// Builds a layer with zero state and empty histories; weights and biases of each sublayer
    /// come from its initializers.
    pub fn new<RW: Fn(usize, usize) -> Weight, RB: Fn(usize) -> Weight, OW: Fn(usize, usize) -> Weight, OB: Fn(usize) -> Weight>(
        output_count: usize,
        input_count: usize,
        init_recurrent_weights: &RW,
        init_recurrent_biases: &RB,
        recurrent_activation_fn: Activation,
        init_output_weights: &OW,
        init_output_biases: &OB,
        output_activation_fn: Activation,
        state_size: usize,
    ) -> (r: RecurrentLayer)
        requires
            input_count + state_size <= usize::MAX,
            forall|j: usize, i: usize| j < state_size && i < input_count + state_size ==> init_recurrent_weights.requires((j, i)),
            forall|j: usize| j < state_size ==> init_recurrent_biases.requires((j,)),
            forall|j: usize, i: usize| j < output_count && i < input_count + state_size ==> init_output_weights.requires((j, i)),
            forall|j: usize| j < output_count ==> init_output_biases.requires((j,)),
        ensures
            r.wf(),
            r.state@ == zeros(state_size as nat),
            r.input_count() == input_count,
            r.output_count() == output_count,
            r.recurrent_tree.activation == recurrent_activation_fn,
            r.output_tree.activation == output_activation_fn,
            forall|j: int, i: int| 0 <= j < state_size && 0 <= i < input_count + state_size ==>
                init_recurrent_weights.ensures((j as usize, i as usize), #[trigger] r.recurrent_tree.rows()[j][i]),
            forall|j: int| 0 <= j < state_size ==>
                init_recurrent_biases.ensures((j as usize,), #[trigger] r.recurrent_tree.biases@[j]),
            forall|j: int, i: int| 0 <= j < output_count && 0 <= i < input_count + state_size ==>
                init_output_weights.ensures((j as usize, i as usize), #[trigger] r.output_tree.rows()[j][i]),
            forall|j: int| 0 <= j < output_count ==>
                init_output_biases.ensures((j as usize,), #[trigger] r.output_tree.biases@[j]),
            r.sequence_inputs@.len() == 0,
            r.prev_states@.len() == 0,
            r.computed_recurrent_gradients@.len() == 0,
            r.computed_output_gradients@.len() == 0,
    {
        let width: usize = input_count + state_size;
        let recurrent_tree = DenseLayer::new(state_size, width, init_recurrent_weights, init_recurrent_biases, recurrent_activation_fn);
        let output_tree = DenseLayer::new(output_count, width, init_output_weights, init_output_biases, output_activation_fn);
        let state: Vec<Weight> = vec![0; state_size];
        assert(state@ =~= zeros(state_size as nat));
        let r = RecurrentLayer {
            state,
            recurrent_tree,
            output_tree,
            combined_inputs_scratch: vec![0; width],
            sequence_inputs: Vec::new(),
            prev_states: Vec::new(),
            computed_recurrent_gradients: Vec::new(),
            computed_output_gradients: Vec::new(),
        };
        assert(r.states_history() =~= Seq::empty());
        assert(r.inputs_history() =~= Seq::empty());
        assert(r.recurrent_grads() =~= Seq::empty());
        assert(r.output_grads() =~= Seq::empty());
        r
    }

    /// Sets every entry of the state to zero; nothing else changes.
    pub fn reset(&mut self)
        ensures
            final(self).state@ == zeros(old(self).state@.len()),
            final(self).recurrent_tree == old(self).recurrent_tree,
            final(self).output_tree == old(self).output_tree,
            final(self).combined_inputs_scratch == old(self).combined_inputs_scratch,
            final(self).sequence_inputs == old(self).sequence_inputs,
            final(self).prev_states == old(self).prev_states,
            final(self).computed_recurrent_gradients == old(self).computed_recurrent_gradients,
            final(self).computed_output_gradients == old(self).computed_output_gradients,
    {
        let n = self.state.len();
        self.state = vec![0; n];
        assert(self.state@ =~= zeros(n as nat));
    }

    /// Runs one step at position `index_in_sequence`: both sublayers read the current state
    /// followed by `inputs`, the state before the step and the inputs are recorded at that
    /// index, and the state becomes the recurrent sublayer's output.
    pub fn forward_propagate(&mut self, inputs: &[Weight], index_in_sequence: usize)
        requires
            old(self).wf(),
            inputs@.len() == old(self).input_count(),
            index_in_sequence <= old(self).prev_states@.len(),
        ensures
            final(self).wf(),
            final(self).same_params(old(self)),
            final(self).combined_inputs_scratch@ == old(self).state@ + inputs@,
            final(self).output_tree.outputs@ == dense_out(
                old(self).output_tree.rows(),
                old(self).output_tree.biases@,
                old(self).output_tree.activation,
                old(self).state@ + inputs@,
            ),
            final(self).recurrent_tree.outputs@ == dense_out(
                old(self).recurrent_tree.rows(),
                old(self).recurrent_tree.biases@,
                old(self).recurrent_tree.activation,
                old(self).state@ + inputs@,
            ),
            final(self).state@ == final(self).recurrent_tree.outputs@,
            final(self).states_history() == put(old(self).states_history(), index_in_sequence as int, old(self).state@),
            final(self).inputs_history() == put(old(self).inputs_history(), index_in_sequence as int, inputs@),
            final(self).computed_recurrent_gradients == old(self).computed_recurrent_gradients,
            final(self).computed_output_gradients == old(self).computed_output_gradients,
    {
        let ghost pre = *self;
        let s = self.state.len();
        let mut x: Vec<Weight> = Vec::new();
        let mut i: usize = 0;
        while i < s
            invariant
                i <= s,
                s == self.state.len(),
                x@ =~= self.state@.subrange(0, i as int),
            decreases s - i,
        {
            x.push(self.state[i]);
            i = i + 1;
        }
        let mut i: usize = 0;
        while i < inputs.len()
            invariant
                i <= inputs.len(),
                s == self.state.len(),
                x@ =~= self.state@ + inputs@.subrange(0, i as int),
            decreases inputs.len() - i,
        {
            x.push(inputs[i]);
            i = i + 1;
        }
        assert(x@ =~= pre.state@ + inputs@);
        self.output_tree.forward_propagate(&x);
        self.recurrent_tree.forward_propagate(&x);

        let saved_state = copy_weights(self.state.as_slice());
        let saved_inputs = copy_weights(inputs);
        if index_in_sequence < self.prev_states.len() {
            self.prev_states.set(index_in_sequence, saved_state);
            self.sequence_inputs.set(index_in_sequence, saved_inputs);
        } else {
            self.prev_states.push(saved_state);
            self.sequence_inputs.push(saved_inputs);
        }
        assert(self.states_history() =~= put(pre.states_history(), index_in_sequence as int, pre.state@));
        assert(self.inputs_history() =~= put(pre.inputs_history(), index_in_sequence as int, inputs@));
        self.state = copy_weights(self.recurrent_tree.outputs.as_slice());
        self.combined_inputs_scratch = x;
    }

    /// The visible output of the most recent step.
    pub fn get_outputs(&self) -> (r: &[Weight])
        ensures
            r@ == self.output_tree.outputs@,
    {
        self.output_tree.outputs.as_slice()
    }

    /// Backpropagation through time over `sequence_len` steps. `output_output_weights` are the
    /// downstream layer's weights and `output_gradient_of_output_neurons[i]` its per-neuron
    /// gradients at step `i` (all zero for an unsupervised step). Leaves one output-path
    /// gradient and one state-neuron gradient per step, in step order.
    pub fn compute_gradients(
        &mut self,
        output_output_weights: &[Vec<Weight>],
        output_gradient_of_output_neurons: &[Vec<Weight>],
        sequence_len: usize,
    )
        requires
            old(self).wf(),
            1 <= sequence_len,
            output_gradient_of_output_neurons@.len() == sequence_len,
            rows_len(rows_of(output_gradient_of_output_neurons@), output_output_weights@.len() as int),
        ensures
            final(self).wf(),
            final(self).same_params(old(self)),
            final(self).state == old(self).state,
            final(self).combined_inputs_scratch == old(self).combined_inputs_scratch,
            final(self).sequence_inputs == old(self).sequence_inputs,
            final(self).prev_states == old(self).prev_states,
            final(self).output_tree.outputs == old(self).output_tree.outputs,
            final(self).recurrent_tree.outputs == old(self).recurrent_tree.outputs,
            final(self).output_grads() == Seq::new(sequence_len as nat, |i: int|
                dense_grad(
                    old(self).output_tree.activation,
                    old(self).output_tree.outputs@,
                    rows_of(output_output_weights@),
                    rows_of(output_gradient_of_output_neurons@)[i],
                )),
            final(self).recurrent_grads() == Seq::new(sequence_len as nat, |i: int|
                bptt(
                    old(self).recurrent_tree.activation,
                    old(self).recurrent_tree.outputs@,
                    self_links(old(self).recurrent_tree.rows(), old(self).state@.len() as int),
                    rows_of(output_output_weights@),
                    rows_of(output_gradient_of_output_neurons@),
                    sequence_len as int,
                    i,
                )),
    {
        let ghost pre = *self;
        let ghost nw = rows_of(output_output_weights@);
        let ghost gs = rows_of(output_gradient_of_output_neurons@);
        let ghost n = sequence_len as int;
        let s = self.state.len();

        // The columns of the recurrent sublayer that read its own previous output.
        let mut links: Vec<Vec<Weight>> = Vec::new();
        let mut j: usize = 0;
        while j < self.recurrent_tree.weights.len()
            invariant
                j <= self.recurrent_tree.weights.len(),
                self.wf(),
                s == self.state.len(),
                rows_of(links@) =~= self_links(self.recurrent_tree.rows(), s as int).subrange(0, j as int),
            decreases self.recurrent_tree.weights.len() - j,
        {
            let mut row: Vec<Weight> = Vec::new();
            let mut i: usize = 0;
            assert(self.recurrent_tree.rows()[j as int].len() == self.combined_inputs_scratch.len());
            while i < s
                invariant
                    i <= s,
                    s == self.state.len(),
                    j < self.recurrent_tree.weights.len(),
                    self.wf(),
                    row@ =~= self.recurrent_tree.rows()[j as int].subrange(0, i as int),
                decreases s - i,
            {
                row.push(self.recurrent_tree.weights[j][i]);
                i = i + 1;
            }
            let ghost before = links@;
            links.push(row);
            assert(rows_of(links@) =~= rows_of(before).push(row@));
            j = j + 1;
        }
        assert(rows_of(links@) =~= self_links(pre.recurrent_tree.rows(), s as int));
        let ghost lw = rows_of(links@);

        let mut outs: Vec<Vec<Weight>> = Vec::new();
        let mut recs: Vec<Vec<Weight>> = Vec::new();
        let mut k: usize = 0;
        while k < sequence_len
            invariant
                k <= sequence_len,
                outs.len() == k,
                recs.len() == k,
            decreases sequence_len - k,
        {
            outs.push(Vec::new());
            recs.push(Vec::new());
            k = k + 1;
        }

        let last = sequence_len - 1;
        assert(output_gradient_of_output_neurons@[last as int]@ == gs[last as int]);
        assert(gs[last as int].len() == nw.len());
        self.output_tree.compute_gradients(output_output_weights, output_gradient_of_output_neurons[last].as_slice());
        outs.set(last, copy_weights(self.output_tree.neuron_gradients.as_slice()));
        self.recurrent_tree.compute_gradients(output_output_weights, output_gradient_of_output_neurons[last].as_slice());
        recs.set(last, copy_weights(self.recurrent_tree.neuron_gradients.as_slice()));

        let mut i: usize = last;
        while i > 0
            invariant
                i <= last,
                last + 1 == sequence_len,
                n == sequence_len,
                outs.len() == sequence_len,
                recs.len() == sequence_len,
                s == self.state.len(),
                nw == rows_of(output_output_weights@),
                gs == rows_of(output_gradient_of_output_neurons@),
                gs.len() == n,
                rows_len(gs, nw.len() as int),
                lw == rows_of(links@),
                lw == self_links(pre.recurrent_tree.rows(), s as int),
                lw.len() == s,
                rows_len(lw, s as int),
                self.state == pre.state,
                self.same_params(&pre),
                self.combined_inputs_scratch == pre.combined_inputs_scratch,
                self.sequence_inputs == pre.sequence_inputs,
                self.prev_states == pre.prev_states,
                self.computed_recurrent_gradients == pre.computed_recurrent_gradients,
                self.computed_output_gradients == pre.computed_output_gradients,
                self.recurrent_tree.neuron_gradients.len() == s,
                self.output_tree.neuron_gradients.len() == self.output_tree.weights.len(),
                self.recurrent_tree.outputs == pre.recurrent_tree.outputs,
                self.recurrent_tree.activation == pre.recurrent_tree.activation,
                self.output_tree.outputs == pre.output_tree.outputs,
                self.output_tree.activation == pre.output_tree.activation,
                pre.wf(),
                forall|k: int| i <= k < n ==> #[trigger] rows_of(outs@)[k] == dense_grad(
                    pre.output_tree.activation, pre.output_tree.outputs@, nw, gs[k]),
                forall|k: int| i <= k < n ==> #[trigger] rows_of(recs@)[k] == bptt(
                    pre.recurrent_tree.activation, pre.recurrent_tree.outputs@, lw, nw, gs, n, k),
            decreases i,
        {
            i = i - 1;
            assert(output_gradient_of_output_neurons@[i as int]@ == gs[i as int]);
            assert(gs[i as int].len() == nw.len());
            self.output_tree.compute_gradients(output_output_weights, output_gradient_of_output_neurons[i].as_slice());
            let og = copy_weights(self.output_tree.neuron_gradients.as_slice());
            self.recurrent_tree.compute_gradients(output_output_weights, output_gradient_of_output_neurons[i].as_slice());
            let to_output = copy_weights(self.recurrent_tree.neuron_gradients.as_slice());
            assert(recs@[i + 1]@ == rows_of(recs@)[i + 1]);
            assert(recs@[i + 1]@.len() == s);
            self.recurrent_tree.compute_gradients(links.as_slice(), recs[i + 1].as_slice());
            let mut combined: Vec<Weight> = Vec::new();
            let mut j: usize = 0;
            while j < to_output.len()
                invariant
                    j <= to_output.len(),
                    to_output.len() == self.recurrent_tree.neuron_gradients.len(),
                    combined@ =~= plus(to_output@, self.recurrent_tree.neuron_gradients@).subrange(0, j as int),
                decreases to_output.len() - j,
            {
                combined.push(add_sat(to_output[j], self.recurrent_tree.neuron_gradients[j]));
                j = j + 1;
            }
            assert(combined@ =~= bptt(pre.recurrent_tree.activation, pre.recurrent_tree.outputs@, lw, nw, gs, n, i as int));
            let ghost outs_before = outs@;
            let ghost recs_before = recs@;
            let ghost og_v = og@;
            let ghost combined_v = combined@;
            assert(og_v == dense_grad(pre.output_tree.activation, pre.output_tree.outputs@, nw, gs[i as int]));
            outs.set(i, og);
            recs.set(i, combined);
            assert forall|k: int| i <= k < n implies #[trigger] rows_of(outs@)[k] == dense_grad(
                pre.output_tree.activation, pre.output_tree.outputs@, nw, gs[k]) by {
                if k > i {
                    assert(outs@[k] == outs_before[k]);
                    assert(rows_of(outs_before)[k] == dense_grad(
                        pre.output_tree.activation, pre.output_tree.outputs@, nw, gs[k]));
                } else {
                    assert(outs@[k]@ == og_v);
                }
            }
            assert forall|k: int| i <= k < n implies #[trigger] rows_of(recs@)[k] == bptt(
                pre.recurrent_tree.activation, pre.recurrent_tree.outputs@, lw, nw, gs, n, k) by {
                if k > i {
                    assert(recs@[k] == recs_before[k]);
                    assert(rows_of(recs_before)[k] == bptt(
                        pre.recurrent_tree.activation, pre.recurrent_tree.outputs@, lw, nw, gs, n, k));
                } else {
                    assert(recs@[k]@ == combined_v);
                }
            }
        }
        self.computed_output_gradients = outs;
        self.computed_recurrent_gradients = recs;
        assert(self.output_grads() =~= Seq::new(sequence_len as nat, |i: int|
            dense_grad(pre.output_tree.activation, pre.output_tree.outputs@, nw, gs[i])));
        assert(self.recurrent_grads() =~= Seq::new(sequence_len as nat, |i: int|
            bptt(pre.recurrent_tree.activation, pre.recurrent_tree.outputs@, lw, nw, gs, n, i)));
    }

    /// Applies the weight updates of the first `sequence_len` steps of the last backward pass:
    /// at step `k`, `w[j][i] += learning_rate * g[k][j] * x_k[i]` in both sublayers, with `x_k`
    /// the combined input of step `k` and `g` the sublayer's gradients.
    pub fn update_weights(&mut self, learning_rate: Weight, sequence_len: usize)
        requires
            old(self).wf(),
            sequence_len <= old(self).prev_states@.len(),
            sequence_len <= old(self).computed_output_gradients@.len(),
            sequence_len <= old(self).computed_recurrent_gradients@.len(),
        ensures
            final(self).wf(),
            final(self).output_tree.rows() == trained(
                old(self).output_tree.rows(),
                old(self).output_grads(),
                old(self).step_inputs(sequence_len as nat),
                learning_rate,
                sequence_len as nat,
            ),
            final(self).recurrent_tree.rows() == trained(
                old(self).recurrent_tree.rows(),
                old(self).recurrent_grads(),
                old(self).step_inputs(sequence_len as nat),
                learning_rate,
                sequence_len as nat,
            ),
            final(self).output_tree.biases == old(self).output_tree.biases,
            final(self).recurrent_tree.biases == old(self).recurrent_tree.biases,
            final(self).output_tree.activation == old(self).output_tree.activation,
            final(self).recurrent_tree.activation == old(self).recurrent_tree.activation,
            final(self).output_tree.outputs == old(self).output_tree.outputs,
            final(self).recurrent_tree.outputs == old(self).recurrent_tree.outputs,
            final(self).state == old(self).state,
            final(self).sequence_inputs == old(self).sequence_inputs,
            final(self).prev_states == old(self).prev_states,
            final(self).computed_recurrent_gradients == old(self).computed_recurrent_gradients,
            final(self).computed_output_gradients == old(self).computed_output_gradients,
    {
        let ghost pre = *self;
        let ghost n = sequence_len as nat;
        let ghost xs = pre.step_inputs(n);
        let s = self.state.len();
        let mut step: usize = 0;
        while step < sequence_len
            invariant
                step <= sequence_len,
                s == self.state.len(),
                self.wf(),
                pre.wf(),
                sequence_len <= self.prev_states@.len(),
                sequence_len <= self.computed_output_gradients@.len(),
                sequence_len <= self.computed_recurrent_gradients@.len(),
                xs == pre.step_inputs(n),
                n == sequence_len,
                self.output_tree.rows() == trained(pre.output_tree.rows(), pre.output_grads(), xs, learning_rate, step as nat),
                self.recurrent_tree.rows() == trained(pre.recurrent_tree.rows(), pre.recurrent_grads(), xs, learning_rate, step as nat),
                self.output_tree.biases == pre.output_tree.biases,
                self.recurrent_tree.biases == pre.recurrent_tree.biases,
                self.output_tree.activation == pre.output_tree.activation,
                self.recurrent_tree.activation == pre.recurrent_tree.activation,
                self.output_tree.outputs == pre.output_tree.outputs,
                self.recurrent_tree.outputs == pre.recurrent_tree.outputs,
                self.state == pre.state,
                self.sequence_inputs == pre.sequence_inputs,
                self.prev_states == pre.prev_states,
                self.computed_recurrent_gradients == pre.computed_recurrent_gradients,
                self.computed_output_gradients == pre.computed_output_gradients,
            decreases sequence_len - step,
        {
            let ghost xk = xs[step as int];
            assert(xk == pre.step_input(step as int));
            let mut x: Vec<Weight> = Vec::new();
            let mut i: usize = 0;
            assert(self.states_history()[step as int].len() == s);
            assert(self.prev_states@[step as int]@ == self.states_history()[step as int]);
            while i < s
                invariant
                    i <= s,
                    s == self.state.len(),
                    step < self.prev_states@.len(),
                    self.prev_states@[step as int]@.len() == s,
                    x@ =~= xk.subrange(0, i as int),
                    xk == pre.step_input(step as int),
                    self.prev_states == pre.prev_states,
                    self.state == pre.state,
                    pre.wf(),
                decreases s - i,
            {
                if step == 0 {
                    x.push(0);
                } else {
                    x.push(self.prev_states[step][i]);
                }
                i = i + 1;
            }
            assert(self.inputs_history()[step as int].len() == self.input_count());
            assert(self.sequence_inputs@[step as int]@ == self.inputs_history()[step as int]);
            let m = self.sequence_inputs[step].len();
            let mut i: usize = 0;
            while i < m
                invariant
                    i <= m,
                    s == self.state.len(),
                    step < self.sequence_inputs@.len(),
                    m == self.sequence_inputs@[step as int]@.len(),
                    m + s == xk.len(),
                    x@ =~= xk.subrange(0, (s + i) as int),
                    xk == pre.step_input(step as int),
                    self.sequence_inputs == pre.sequence_inputs,
                    self.state == pre.state,
                    pre.wf(),
                decreases m - i,
            {
                x.push(self.sequence_inputs[step][i]);
                i = i + 1;
            }
            assert(x@ =~= xk);
            self.combined_inputs_scratch = x;
            assert(self.output_grads()[step as int].len() == self.output_count());
            assert(self.computed_output_gradients@[step as int]@ == self.output_grads()[step as int]);
            assert(self.recurrent_grads()[step as int].len() == s);
            assert(self.computed_recurrent_gradients@[step as int]@ == self.recurrent_grads()[step as int]);
            self.output_tree.nudge_weights(&self.computed_output_gradients[step], &self.combined_inputs_scratch, learning_rate);
            self.recurrent_tree.nudge_weights(&self.computed_recurrent_gradients[step], &self.combined_inputs_scratch, learning_rate);
            step = step + 1;
        }
    }

    /// Adds `learning_rate * g[k][j]` to output bias `j` for each of the first `sequence_len`
    /// steps `k`, `g` the output-path gradients. The recurrent sublayer's biases stay as they are.
    pub fn update_biases(&mut self, learning_rate: Weight, sequence_len: usize)
        requires
            old(self).wf(),
            sequence_len <= old(self).computed_output_gradients@.len(),
        ensures
            final(self).wf(),
            final(self).output_tree.biases@ == biased(
                old(self).output_tree.biases@,
                old(self).output_grads(),
                learning_rate,
                sequence_len as nat,
            ),
            final(self).output_tree.weights == old(self).output_tree.weights,
            final(self).recurrent_tree == old(self).recurrent_tree,
            final(self).output_tree.activation == old(self).output_tree.activation,
            final(self).output_tree.outputs == old(self).output_tree.outputs,
            final(self).state == old(self).state,
            final(self).combined_inputs_scratch == old(self).combined_inputs_scratch,
            final(self).sequence_inputs == old(self).sequence_inputs,
            final(self).prev_states == old(self).prev_states,
            final(self).computed_recurrent_gradients == old(self).computed_recurrent_gradients,
            final(self).computed_output_gradients == old(self).computed_output_gradients,
    {
        let ghost pre = *self;
        let nb = self.output_tree.biases.len();
        let mut step: usize = 0;
        while step < sequence_len
            invariant
                step <= sequence_len,
                sequence_len <= self.computed_output_gradients@.len(),
                nb == self.output_tree.biases.len(),
                self.wf(),
                self.output_tree.biases@ == biased(pre.output_tree.biases@, pre.output_grads(), learning_rate, step as nat),
                self.output_tree.weights == pre.output_tree.weights,
                self.recurrent_tree == pre.recurrent_tree,
                self.output_tree.activation == pre.output_tree.activation,
                self.output_tree.outputs == pre.output_tree.outputs,
                self.output_tree.neuron_gradients == pre.output_tree.neuron_gradients,
                self.state == pre.state,
                self.combined_inputs_scratch == pre.combined_inputs_scratch,
                self.sequence_inputs == pre.sequence_inputs,
                self.prev_states == pre.prev_states,
                self.computed_recurrent_gradients == pre.computed_recurrent_gradients,
                self.computed_output_gradients == pre.computed_output_gradients,
            decreases sequence_len - step,
        {
            assert(self.output_grads()[step as int].len() == nb);
            assert(self.computed_output_gradients@[step as int]@ == self.output_grads()[step as int]);
            let ghost target = biased(pre.output_tree.biases@, pre.output_grads(), learning_rate, (step + 1) as nat);
            let mut b: Vec<Weight> = Vec::new();
            let mut j: usize = 0;
            while j < nb
                invariant
                    j <= nb,
                    nb == self.output_tree.biases.len(),
                    step < self.computed_output_gradients@.len(),
                    self.computed_output_gradients@[step as int]@.len() == nb,
                    self.computed_output_gradients@[step as int]@ == pre.output_grads()[step as int],
                    pre.output_tree.biases@.len() == nb,
                    self.output_tree.biases@ == biased(pre.output_tree.biases@, pre.output_grads(), learning_rate, step as nat),
                    target == biased(pre.output_tree.biases@, pre.output_grads(), learning_rate, (step + 1) as nat),
                    b@ =~= target.subrange(0, j as int),
                decreases nb - j,
            {
                b.push(add_sat(self.output_tree.biases[j], mul_fixed(self.computed_output_gradients[step][j], learning_rate)));
                j = j + 1;
            }
            assert(b@ =~= target);
            self.output_tree.biases = b;
            step = step + 1;
        }
    }
}

} // verus!
