//! Fully connected sublayers: weighted sum plus activation, with the
//! single-step gradient and update primitives the recurrent layer builds on.
use vstd::prelude::*;
use crate::fixed::{Weight, ONE, fx_add, fx_mul, add_sat, mul_fixed};

verus! {

/// An activation function applied to each neuron's weighted sum.
#[derive(Clone, Copy, Debug, PartialEq, Eq, Structural)]
pub enum Activation {
    Identity,
    Relu,
}

impl Activation {
    pub open spec fn apply_spec(self, x: i64) -> i64 {
        match self {
            Activation::Identity => x,
            Activation::Relu => if x > 0 { x } else { 0 },
        }
    }

    /// The derivative, read off the neuron's output value.
    pub open spec fn derivative_spec(self, out: i64) -> i64 {
        match self {
            Activation::Identity => ONE,
            Activation::Relu => if out > 0 { ONE } else { 0 },
        }
    }

    pub fn apply(self, x: Weight) -> (r: Weight)
        ensures
            r == self.apply_spec(x),
    {
        match self {
            Activation::Identity => x,
            Activation::Relu => if x > 0 { x } else { 0 },
        }
    }

    pub fn derivative(self, out: Weight) -> (r: Weight)
        ensures
            r == self.derivative_spec(out),
    {
        match self {
            Activation::Identity => ONE,
            Activation::Relu => if out > 0 { ONE } else { 0 },
        }
    }
}

/// Fixed-point dot product of the first `n` entries of `w` and `x`, summed left to right.
pub open spec fn dot(w: Seq<i64>, x: Seq<i64>, n: nat) -> i64
    decreases n,
{
    if n == 0 {
        0
    } else {
        fx_add(dot(w, x, (n - 1) as nat), fx_mul(w[n - 1], x[n - 1]))
    }
}

/// What a layer with these weight rows, biases and activation outputs for input `x`.
pub open spec fn dense_out(rows: Seq<Seq<i64>>, biases: Seq<i64>, act: Activation, x: Seq<i64>) -> Seq<i64> {
    Seq::new(rows.len(), |j: int| act.apply_spec(fx_add(dot(rows[j], x, x.len()), biases[j])))
}

/// The weight from neuron `j` into downstream neuron `k`, zero where there is no such connection.
pub open spec fn link(next_w: Seq<Seq<i64>>, k: int, j: int) -> i64 {
    if 0 <= j < next_w[k].len() { next_w[k][j] } else { 0 }
}

/// The downstream gradients of the first `n` downstream neurons, projected back onto neuron `j`.
pub open spec fn projected(next_w: Seq<Seq<i64>>, next_g: Seq<i64>, j: int, n: nat) -> i64
    decreases n,
{
    if n == 0 {
        0
    } else {
        fx_add(projected(next_w, next_g, j, (n - 1) as nat), fx_mul(link(next_w, n - 1, j), next_g[n - 1]))
    }
}

/// Per-neuron gradients of a layer whose current outputs are `outs`, given the downstream
/// weights and gradients.
pub open spec fn dense_grad(act: Activation, outs: Seq<i64>, next_w: Seq<Seq<i64>>, next_g: Seq<i64>) -> Seq<i64> {
    Seq::new(outs.len(), |j: int| fx_mul(act.derivative_spec(outs[j]), projected(next_w, next_g, j, next_g.len())))
}

/// The weights after one step of `w[j][i] += lr * g[j] * x[i]`.
pub open spec fn nudged(rows: Seq<Seq<i64>>, g: Seq<i64>, x: Seq<i64>, lr: i64) -> Seq<Seq<i64>> {
    Seq::new(rows.len(), |j: int| Seq::new(rows[j].len(), |i: int| fx_add(rows[j][i], fx_mul(fx_mul(lr, g[j]), x[i]))))
}

/// The rows of a matrix of `Vec`s as sequences.
pub open spec fn rows_of(m: Seq<Vec<i64>>) -> Seq<Seq<i64>> {
    m.map_values(|r: Vec<i64>| r@)
}

/// Every row of `m` has length `n`.
pub open spec fn rows_len(m: Seq<Seq<i64>>, n: int) -> bool {
    forall|j: int| 0 <= j < m.len() ==> #[trigger] m[j].len() == n
}

/// A copy of `v` as a vector.
pub fn copy_weights(v: &[Weight]) -> (r: Vec<Weight>)
    ensures
        r@ == v@,
{
    let mut r: Vec<Weight> = Vec::new();
    let mut i: usize = 0;
    while i < v.len()
        invariant
            i <= v.len(),
            r@ == v@.subrange(0, i as int),
        decreases v.len() - i,
    {
        r.push(v[i]);
        i = i + 1;
    }
    assert(r@ =~= v@);
    r
}

/// Fixed-point dot product of `w` and `x` over the length of `x`.
pub fn dot_product(w: &Vec<Weight>, x: &Vec<Weight>) -> (r: Weight)
    requires
        w.len() == x.len(),
    ensures
        r == dot(w@, x@, x@.len()),
{
    let mut acc: Weight = 0;
    let mut i: usize = 0;
    while i < x.len()
        invariant
            i <= x.len(),
            w.len() == x.len(),
            acc == dot(w@, x@, i as nat),
        decreases x.len() - i,
    {
        acc = add_sat(acc, mul_fixed(w[i], x[i]));
        i = i + 1;
    }
    acc
}

/// Per-neuron gradients of a layer whose outputs are `outs`, given downstream weights and gradients.
pub fn gradients_of(act: Activation, outs: &Vec<Weight>, next_w: &[Vec<Weight>], next_g: &[Weight]) -> (r: Vec<Weight>)
    requires
        next_w.len() == next_g.len(),
    ensures
        r@ == dense_grad(act, outs@, rows_of(next_w@), next_g@),
{
    let ghost nw = rows_of(next_w@);
    let mut r: Vec<Weight> = Vec::new();
    let mut j: usize = 0;
    while j < outs.len()
        invariant
            j <= outs.len(),
            next_w.len() == next_g.len(),
            nw == rows_of(next_w@),
            r@ =~= dense_grad(act, outs@, nw, next_g@).subrange(0, j as int),
        decreases outs.len() - j,
    {
        let mut acc: Weight = 0;
        let mut k: usize = 0;
        while k < next_g.len()
            invariant
                k <= next_g.len(),
                j < outs.len(),
                next_w.len() == next_g.len(),
                nw == rows_of(next_w@),
                acc == projected(nw, next_g@, j as int, k as nat),
            decreases next_g.len() - k,
        {
            let wkj: Weight = if j < next_w[k].len() { next_w[k][j] } else { 0 };
            assert(wkj == link(nw, k as int, j as int));
            acc = add_sat(acc, mul_fixed(wkj, next_g[k]));
            k = k + 1;
        }
        let d = act.derivative(outs[j]);
        r.push(mul_fixed(d, acc));
        j = j + 1;
    }
    r
}


/// A fully connected layer: one weight row and one bias per output neuron.
pub struct DenseLayer {
    pub weights: Vec<Vec<Weight>>,
    pub biases: Vec<Weight>,
    pub activation: Activation,
    /// The outputs of the most recent forward step.
    pub outputs: Vec<Weight>,
    /// The per-neuron gradients of the most recent gradient computation.
    pub neuron_gradients: Vec<Weight>,
}

impl DenseLayer {
    pub open spec fn rows(&self) -> Seq<Seq<i64>> {
        rows_of(self.weights@)
    }

    /// `n_out` neurons, each reading `n_in` inputs.
    pub open spec fn shaped(&self, n_out: int, n_in: int) -> bool {
        &&& self.weights.len() == n_out
        &&& self.biases.len() == n_out
        &&& self.outputs.len() == n_out
        &&& self.neuron_gradients.len() == n_out
        &&& rows_len(self.rows(), n_in)
    }

    /// Builds a layer whose weight `(j, i)` and bias `j` come from the initializers.
    pub fn new<FW: Fn(usize, usize) -> Weight, FB: Fn(usize) -> Weight>(
        n_out: usize,
        n_in: usize,
        init_weights: &FW,
        init_biases: &FB,
        activation: Activation,
    ) -> (r: DenseLayer)
        requires
            forall|j: usize, i: usize| j < n_out && i < n_in ==> init_weights.requires((j, i)),
            forall|j: usize| j < n_out ==> init_biases.requires((j,)),
        ensures
            r.shaped(n_out as int, n_in as int),
            r.activation == activation,
            forall|j: int, i: int| 0 <= j < n_out && 0 <= i < n_in ==>
                init_weights.ensures((j as usize, i as usize), #[trigger] r.rows()[j][i]),
            forall|j: int| 0 <= j < n_out ==> init_biases.ensures((j as usize,), #[trigger] r.biases@[j]),
            r.outputs@ == Seq::new(n_out as nat, |j: int| 0i64),
            r.neuron_gradients@ == Seq::new(n_out as nat, |j: int| 0i64),
    {
        let mut weights: Vec<Vec<Weight>> = Vec::new();
        let mut biases: Vec<Weight> = Vec::new();
        let mut j: usize = 0;
        while j < n_out
            invariant
                j <= n_out,
                weights.len() == j,
                biases.len() == j,
                forall|j: usize, i: usize| j < n_out && i < n_in ==> init_weights.requires((j, i)),
                forall|j: usize| j < n_out ==> init_biases.requires((j,)),
                rows_len(rows_of(weights@), n_in as int),
                forall|jj: int, i: int| 0 <= jj < j && 0 <= i < n_in ==>
                    init_weights.ensures((jj as usize, i as usize), #[trigger] rows_of(weights@)[jj][i]),
                forall|jj: int| 0 <= jj < j ==> init_biases.ensures((jj as usize,), #[trigger] biases@[jj]),
            decreases n_out - j,
        {
            let mut row: Vec<Weight> = Vec::new();
            let mut i: usize = 0;
            while i < n_in
                invariant
                    i <= n_in,
                    j < n_out,
                    row.len() == i,
                    forall|j: usize, i: usize| j < n_out && i < n_in ==> init_weights.requires((j, i)),
                    forall|ii: int| 0 <= ii < i ==> init_weights.ensures((j, ii as usize), #[trigger] row@[ii]),
                decreases n_in - i,
            {
                let w = init_weights(j, i);
                row.push(w);
                i = i + 1;
            }
            let b = init_biases(j);
            let ghost before = weights@;
            weights.push(row);
            biases.push(b);
            assert(rows_of(weights@) =~= rows_of(before).push(row@));
            j = j + 1;
        }
        DenseLayer {
            weights,
            biases,
            activation,
            outputs: vec![0; n_out],
            neuron_gradients: vec![0; n_out],
        }
    }

    /// Runs the weighted sum and activation on `x`, leaving the result in `outputs`.
    pub fn forward_propagate(&mut self, x: &Vec<Weight>)
        requires
            old(self).shaped(old(self).weights.len() as int, x.len() as int),
        ensures
            final(self).outputs@ == dense_out(old(self).rows(), old(self).biases@, old(self).activation, x@),
            final(self).weights == old(self).weights,
            final(self).biases == old(self).biases,
            final(self).activation == old(self).activation,
            final(self).neuron_gradients == old(self).neuron_gradients,
    {
        let ghost rows = self.rows();
        let mut outs: Vec<Weight> = Vec::new();
        let mut j: usize = 0;
        while j < self.weights.len()
            invariant
                j <= self.weights.len(),
                self.shaped(self.weights.len() as int, x.len() as int),
                rows == self.rows(),
                outs@ =~= dense_out(rows, self.biases@, self.activation, x@).subrange(0, j as int),
            decreases self.weights.len() - j,
        {
            assert(self.weights[j as int]@ == rows[j as int]);
            let s = dot_product(&self.weights[j], x);
            let y = self.activation.apply(add_sat(s, self.biases[j]));
            outs.push(y);
            j = j + 1;
        }
        self.outputs = outs;
    }

    /// Computes this layer's per-neuron gradients into `neuron_gradients` from the downstream
    /// layer's weights and per-neuron gradients.
    pub fn compute_gradients(&mut self, next_w: &[Vec<Weight>], next_g: &[Weight])
        requires
            next_w.len() == next_g.len(),
        ensures
            final(self).neuron_gradients@ == dense_grad(old(self).activation, old(self).outputs@, rows_of(next_w@), next_g@),
            final(self).weights == old(self).weights,
            final(self).biases == old(self).biases,
            final(self).activation == old(self).activation,
            final(self).outputs == old(self).outputs,
    {
        self.neuron_gradients = gradients_of(self.activation, &self.outputs, next_w, next_g);
    }

    /// Adds `lr * g[j] * x[i]` to each weight `(j, i)`.
    pub fn nudge_weights(&mut self, g: &Vec<Weight>, x: &Vec<Weight>, lr: Weight)
        requires
            g.len() == old(self).weights.len(),
            rows_len(old(self).rows(), x.len() as int),
        ensures
            final(self).rows() == nudged(old(self).rows(), g@, x@, lr),
            final(self).weights.len() == old(self).weights.len(),
            final(self).biases == old(self).biases,
            final(self).activation == old(self).activation,
            final(self).outputs == old(self).outputs,
            final(self).neuron_gradients == old(self).neuron_gradients,
    {
        let ghost rows = self.rows();
        let ghost target = nudged(rows, g@, x@, lr);
        let mut m: Vec<Vec<Weight>> = Vec::new();
        let mut j: usize = 0;
        while j < self.weights.len()
            invariant
                j <= self.weights.len(),
                g.len() == self.weights.len(),
                rows == self.rows(),
                rows_len(rows, x.len() as int),
                target == nudged(rows, g@, x@, lr),
                rows_of(m@) =~= target.subrange(0, j as int),
            decreases self.weights.len() - j,
        {
            let step = mul_fixed(lr, g[j]);
            let mut row: Vec<Weight> = Vec::new();
            let mut i: usize = 0;
            assert(self.weights[j as int]@ == rows[j as int]);
            while i < x.len()
                invariant
                    i <= x.len(),
                    j < self.weights.len(),
                    g.len() == self.weights.len(),
                    rows == self.rows(),
                    rows_len(rows, x.len() as int),
                    self.weights[j as int]@ == rows[j as int],
                    step == fx_mul(lr, g@[j as int]),
                    row@ =~= target[j as int].subrange(0, i as int),
                    target == nudged(rows, g@, x@, lr),
                decreases x.len() - i,
            {
                row.push(add_sat(self.weights[j][i], mul_fixed(step, x[i])));
                i = i + 1;
            }
            assert(row@ =~= target[j as int]);
            let ghost before = m@;
            m.push(row);
            assert(rows_of(m@) =~= rows_of(before).push(row@));
            j = j + 1;
        }
        assert(rows_of(m@) =~= target);
        self.weights = m;
    }
}

} // verus!
