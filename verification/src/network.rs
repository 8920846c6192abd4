//! The training network: neurons with gradient accumulators, layers, the
//! forward pass with softmax, backpropagation for one example, and the
//! mini-batch fix application.
//!
//! Every scalar is the bit pattern of an IEEE 754 double (see [`crate::fbits`]).
//! The contracts pin each computed pattern down to the exact chain of
//! floating-point operations the pass performs, in the exact order it
//! performs them.

use vstd::prelude::*;

use crate::fbits::{
    add_bits, div_bits, exp_bits, f_add, f_div, f_exp, f_from_int, f_ln, f_mul, f_sample_normal,
    f_sqrt, f_sub, ge_zero, int_bits, is_ge_zero, ln_bits, mul_bits, neg, neg_bits, sub_bits,
    BITS_NEG_SLOPE, BITS_ONE, BITS_ZERO,
};

verus! {

/// The leaky rectifier: the identity on non-negative doubles, multiplication
/// by -0.04 on negative ones.
pub open spec fn lrelu_bits(x: u64) -> u64 {
    if is_ge_zero(x) {
        x
    } else {
        mul_bits(x, BITS_NEG_SLOPE)
    }
}

/// The derivative of the leaky rectifier: 1.0 on non-negative doubles, -0.04
/// on negative ones.
pub open spec fn dlrelu_bits(x: u64) -> u64 {
    if is_ge_zero(x) {
        BITS_ONE
    } else {
        BITS_NEG_SLOPE
    }
}

/// The running sum of the first `n` products `ws[i] * xs[i]`, accumulated
/// left to right starting from 0.0, exactly as the forward loop does.
pub open spec fn dot_prefix(ws: Seq<u64>, xs: Seq<u64>, n: int) -> u64
    decreases n,
{
    if n <= 0 {
        BITS_ZERO
    } else {
        add_bits(dot_prefix(ws, xs, n - 1), mul_bits(ws[n - 1], xs[n - 1]))
    }
}

/// A neuron's pre-activation: the full dot product of its weights with the
/// upstream activations, plus its bias.
pub open spec fn pre_activation_bits(ws: Seq<u64>, xs: Seq<u64>, bias: u64) -> u64 {
    add_bits(dot_prefix(ws, xs, ws.len() as int), bias)
}

/// A neuron's activation: the pre-activation itself on the output layer,
/// the leaky rectifier of it anywhere else.
pub open spec fn activation_bits(ws: Seq<u64>, xs: Seq<u64>, bias: u64, is_output: bool) -> u64 {
    if is_output {
        pre_activation_bits(ws, xs, bias)
    } else {
        lrelu_bits(pre_activation_bits(ws, xs, bias))
    }
}

/// The per-neuron step size of one backward step: learning rate times delta,
/// further scaled by the rectifier derivative off the output layer.
pub open spec fn learning_amount_bits(lr: u64, delta: u64, pre: u64, is_output: bool) -> u64 {
    if is_output {
        mul_bits(lr, delta)
    } else {
        mul_bits(mul_bits(lr, delta), dlrelu_bits(pre))
    }
}

/// `nn` is `o` after one backward step against the upstream activations `up`:
/// parameters, pre-activation and activation kept, the learning amount folded
/// into both accumulators, and the delta cleared.
pub open spec fn corrected_neuron(
    nn: Neuron,
    o: Neuron,
    up: Seq<u64>,
    lr: u64,
    is_output: bool,
) -> bool {
    let la = learning_amount_bits(lr, o.delta, o.pre_activation, is_output);
    nn.weights@ == o.weights@ && nn.bias == o.bias && nn.pre_activation == o.pre_activation
        && nn.activation == o.activation && nn.delta == BITS_ZERO && nn.fix_bias == add_bits(
        o.fix_bias,
        la,
    ) && nn.fix_weights@.len() == o.fix_weights@.len() && (forall|k: int|
        0 <= k < o.fix_weights@.len() ==> nn.fix_weights@[k] == add_bits(
            o.fix_weights@[k],
            mul_bits(la, up[k]),
        ))
}

/// `nn` is `o` after one batch fix: every weight and the bias stepped down by
/// their accumulator divided by the batch size, both accumulators cleared,
/// and the scratch values kept.
pub open spec fn applied_fixes(nn: Neuron, o: Neuron, size_batch: usize) -> bool {
    nn.pre_activation == o.pre_activation && nn.activation == o.activation && nn.delta == o.delta
        && nn.fix_bias == BITS_ZERO && nn.bias == sub_bits(
        o.bias,
        div_bits(o.fix_bias, int_bits(size_batch)),
    ) && nn.weights@.len() == o.weights@.len() && nn.fix_weights@.len() == o.fix_weights@.len() && (
    forall|k: int|
        0 <= k < o.weights@.len() ==> nn.weights@[k] == sub_bits(
            o.weights@[k],
            div_bits(o.fix_weights@[k], int_bits(size_batch)),
        )) && (forall|k: int| 0 <= k < o.fix_weights@.len() ==> nn.fix_weights@[k] == BITS_ZERO)
}

/// One neuron of the training network. Weights and bias are the parameters;
/// `fix_weights` and `fix_bias` accumulate gradient steps across a batch;
/// `pre_activation`, `activation` and `delta` are per-example scratch.
pub struct Neuron {
    pub weights: Vec<u64>,
    pub fix_weights: Vec<u64>,
    pub bias: u64,
    pub fix_bias: u64,
    pub pre_activation: u64,
    pub activation: u64,
    pub delta: u64,
}

/// The two parameter vectors have the upstream layer's length.
pub open spec fn neuron_wf(n: Neuron, upstream: nat) -> bool {
    n.weights@.len() == upstream && n.fix_weights@.len() == upstream
}

/// Parameters and accumulators of `a` and `b` agree.
pub open spec fn same_params(a: Neuron, b: Neuron) -> bool {
    a.weights@ == b.weights@ && a.fix_weights@ == b.fix_weights@ && a.bias == b.bias
        && a.fix_bias == b.fix_bias
}

/// A just-constructed neuron: well formed for its upstream layer, with bias,
/// both accumulators and all scratch values at 0.0.
pub open spec fn fresh_neuron(n: Neuron, upstream: nat) -> bool {
    neuron_wf(n, upstream) && n.bias == BITS_ZERO && n.fix_bias == BITS_ZERO && n.pre_activation
        == BITS_ZERO && n.activation == BITS_ZERO && n.delta == BITS_ZERO && forall|i: int|
        0 <= i < n.fix_weights@.len() ==> n.fix_weights@[i] == BITS_ZERO
}

/// `nn` is `o` after one forward step on the upstream activations `xs`:
/// parameters and delta kept, pre-activation and activation recomputed.
pub open spec fn forwarded_neuron(nn: Neuron, o: Neuron, xs: Seq<u64>, is_output: bool) -> bool {
    same_params(nn, o) && nn.delta == o.delta && nn.pre_activation == pre_activation_bits(
        o.weights@,
        xs,
        o.bias,
    ) && nn.activation == activation_bits(o.weights@, xs, o.bias, is_output)
}

impl Neuron {
    /// Computes this neuron's pre-activation (dot product plus bias) over the
    /// upstream activations, then its activation: the identity on the output
    /// layer, the leaky rectifier elsewhere.
    pub fn set_activation(&mut self, shallower_activations: &Vec<u64>, is_output_layer: bool)
        requires
            old(self).weights@.len() == shallower_activations@.len(),
        ensures
            forwarded_neuron(*final(self), *old(self), shallower_activations@, is_output_layer),
    {
        self.pre_activation = BITS_ZERO;
        let mut i: usize = 0;
        while i < self.weights.len()
            invariant
                i <= self.weights@.len(),
                self.weights@.len() == shallower_activations@.len(),
                same_params(*self, *old(self)),
                self.delta == old(self).delta,
                self.activation == old(self).activation,
                self.pre_activation == dot_prefix(
                    self.weights@,
                    shallower_activations@,
                    i as int,
                ),
            decreases self.weights@.len() - i,
        {
            let term = f_mul(self.weights[i], shallower_activations[i]);
            self.pre_activation = f_add(self.pre_activation, term);
            i += 1;
        }
        self.pre_activation = f_add(self.pre_activation, self.bias);
        self.activation = if is_output_layer {
            self.pre_activation
        } else {
            leaky_relu(self.pre_activation)
        };
    }

    /// A fresh neuron for a hidden layer: each weight drawn from a normal
    /// distribution with mean 0 and standard deviation sqrt(2 / fan_in);
    /// bias, accumulators and scratch all 0.0.
    pub fn new_he(size_shallower_layer: usize) -> (r: Neuron)
        requires
            size_shallower_layer >= 1,
        ensures
            fresh_neuron(r, size_shallower_layer as nat),
    {
        let sd = f_sqrt(f_div(f_from_int(2), f_from_int(size_shallower_layer)));
        Neuron::new_with_sd(size_shallower_layer, sd)
    }

    /// A fresh neuron for the output layer: each weight drawn from a normal
    /// distribution with mean 0 and standard deviation
    /// sqrt(2 / (fan_in + fan_out)); bias, accumulators and scratch all 0.0.
    pub fn new_xavier(size_shallower_layer: usize, size_this_layer: usize) -> (r: Neuron)
        requires
            size_shallower_layer >= 1,
            size_this_layer + size_shallower_layer <= usize::MAX,
        ensures
            fresh_neuron(r, size_shallower_layer as nat),
    {
        let sd = f_sqrt(f_div(f_from_int(2), f_from_int(size_this_layer + size_shallower_layer)));
        Neuron::new_with_sd(size_shallower_layer, sd)
    }

    /// A fresh neuron with every weight drawn independently from a normal
    /// distribution with mean 0 and the given standard deviation. A weight
    /// falls back to 0.0 on the dead branch where sampling rejects the
    /// standard deviation.
    fn new_with_sd(size_shallower_layer: usize, sd: u64) -> (r: Neuron)
        ensures
            fresh_neuron(r, size_shallower_layer as nat),
    {
        let mut weights: Vec<u64> = Vec::with_capacity(size_shallower_layer);
        let mut fix_weights: Vec<u64> = Vec::with_capacity(size_shallower_layer);
        let mut i: usize = 0;
        while i < size_shallower_layer
            invariant
                i <= size_shallower_layer,
                weights@.len() == i,
                fix_weights@.len() == i,
                forall|k: int| 0 <= k < i ==> fix_weights@[k] == BITS_ZERO,
            decreases size_shallower_layer - i,
        {
            let w = match f_sample_normal(sd) {
                Some(w) => w,
                None => BITS_ZERO,
            };
            weights.push(w);
            fix_weights.push(BITS_ZERO);
            i += 1;
        }
        Neuron {
            weights,
            fix_weights,
            bias: BITS_ZERO,
            fix_bias: BITS_ZERO,
            pre_activation: BITS_ZERO,
            activation: BITS_ZERO,
            delta: BITS_ZERO,
        }
    }

    /// One backward step of this neuron: scales its delta into a learning
    /// amount, adds learning_amount * upstream_activation to each weight's
    /// gradient accumulator and the learning amount itself to the bias
    /// accumulator, then clears the delta for the next example.
    pub fn stack_correction_activations(
        &mut self,
        upstream_activations: &Vec<u64>,
        learning_rate: u64,
        is_output_layer: bool,
    )
        requires
            old(self).fix_weights@.len() == upstream_activations@.len(),
        ensures
            corrected_neuron(
                *final(self),
                *old(self),
                upstream_activations@,
                learning_rate,
                is_output_layer,
            ),
    {
        let mut learning_amount = f_mul(learning_rate, self.delta);
        if !is_output_layer {
            learning_amount = f_mul(learning_amount, derivative_leaky_relu(self.pre_activation));
        }
        let ghost la = learning_amount_bits(
            learning_rate,
            old(self).delta,
            old(self).pre_activation,
            is_output_layer,
        );
        let mut k: usize = 0;
        while k < self.fix_weights.len()
            invariant
                k <= self.fix_weights@.len(),
                self.fix_weights@.len() == old(self).fix_weights@.len(),
                self.fix_weights@.len() == upstream_activations@.len(),
                learning_amount == la,
                self.weights@ == old(self).weights@,
                self.bias == old(self).bias,
                self.fix_bias == old(self).fix_bias,
                self.pre_activation == old(self).pre_activation,
                self.activation == old(self).activation,
                self.delta == old(self).delta,
                forall|m: int|
                    0 <= m < k ==> self.fix_weights@[m] == add_bits(
                        old(self).fix_weights@[m],
                        mul_bits(la, upstream_activations@[m]),
                    ),
                forall|m: int|
                    k <= m < self.fix_weights@.len() ==> self.fix_weights@[m] == old(self).fix_weights@[m],
            decreases self.fix_weights@.len() - k,
        {
            let inc = f_mul(learning_amount, upstream_activations[k]);
            let nf = f_add(self.fix_weights[k], inc);
            self.fix_weights[k] = nf;
            k += 1;
        }
        self.fix_bias = f_add(self.fix_bias, learning_amount);
        self.delta = BITS_ZERO;
    }

    /// Applies the averaged batch update to this neuron: every weight and the
    /// bias step down by their accumulator divided by the batch size, and
    /// both accumulators are cleared for the next batch.
    pub fn apply_fixes(&mut self, size_batch: usize)
        requires
            size_batch >= 1,
            old(self).weights@.len() == old(self).fix_weights@.len(),
        ensures
            applied_fixes(*final(self), *old(self), size_batch),
    {
        let sb = f_from_int(size_batch);
        let mut k: usize = 0;
        while k < self.weights.len()
            invariant
                k <= self.weights@.len(),
                self.weights@.len() == old(self).weights@.len(),
                self.fix_weights@.len() == old(self).fix_weights@.len(),
                self.weights@.len() == self.fix_weights@.len(),
                sb == int_bits(size_batch),
                self.bias == old(self).bias,
                self.fix_bias == old(self).fix_bias,
                self.pre_activation == old(self).pre_activation,
                self.activation == old(self).activation,
                self.delta == old(self).delta,
                forall|m: int|
                    0 <= m < k ==> self.weights@[m] == sub_bits(
                        old(self).weights@[m],
                        div_bits(old(self).fix_weights@[m], int_bits(size_batch)),
                    ),
                forall|m: int| 0 <= m < k ==> self.fix_weights@[m] == BITS_ZERO,
                forall|m: int|
                    k <= m < self.weights@.len() ==> self.weights@[m] == old(self).weights@[m]
                        && self.fix_weights@[m] == old(self).fix_weights@[m],
            decreases self.weights@.len() - k,
        {
            let step = f_div(self.fix_weights[k], sb);
            let nw = f_sub(self.weights[k], step);
            self.weights[k] = nw;
            self.fix_weights[k] = BITS_ZERO;
            k += 1;
        }
        self.bias = f_sub(self.bias, f_div(self.fix_bias, sb));
        self.fix_bias = BITS_ZERO;
    }

    /// Hands out the trained parameters of this neuron: its weight vector and
    /// its bias.
    pub fn get_parameters(&self) -> (r: (&Vec<u64>, u64))
        ensures
            r.0@ == self.weights@,
            r.1 == self.bias,
    {
        (&self.weights, self.bias)
    }
}

/// The leaky rectifier activation: `x` itself when `x >= 0.0`, else
/// `x * -0.04`.
pub fn leaky_relu(x: u64) -> (r: u64)
    ensures
        r == lrelu_bits(x),
{
    if ge_zero(x) {
        x
    } else {
        crate::fbits::f_mul(x, BITS_NEG_SLOPE)
    }
}

/// The derivative of the leaky rectifier: 1.0 when `x >= 0.0`, else -0.04.
pub fn derivative_leaky_relu(x: u64) -> (r: u64)
    ensures
        r == dlrelu_bits(x),
        is_ge_zero(x) ==> r == BITS_ONE,
        !is_ge_zero(x) ==> r == BITS_NEG_SLOPE,
{
    if ge_zero(x) {
        BITS_ONE
    } else {
        BITS_NEG_SLOPE
    }
}

/// One layer: an ordered sequence of neurons sharing the same upstream input.
/// The order is significant: output-layer neuron `i` stands for digit class `i`.
pub struct Layer {
    pub neurons: Vec<Neuron>,
}

/// Every neuron of the layer has the upstream layer's length.
pub open spec fn layer_wf(layer: Layer, upstream: nat) -> bool {
    forall|j: int|
        0 <= j < layer.neurons@.len() ==> neuron_wf(#[trigger] layer.neurons@[j], upstream)
}

/// Layer 0 matches the input dimensionality; every deeper layer matches the
/// neuron count of the layer before it.
pub open spec fn net_wf(layers: Seq<Layer>, input_dim: nat) -> bool {
    forall|l: int|
        0 <= l < layers.len() ==> layer_wf(
            #[trigger] layers[l],
            if l == 0 {
                input_dim
            } else {
                layers[l - 1].neurons@.len()
            },
        )
}

/// The activations of a sequence of neurons, in neuron order.
pub open spec fn activations_of(ns: Seq<Neuron>) -> Seq<u64> {
    Seq::new(ns.len(), |j: int| ns[j].activation)
}

/// The activations a layer of neurons computes from the input `xs`.
pub open spec fn layer_acts(ns: Seq<Neuron>, xs: Seq<u64>, is_output: bool) -> Seq<u64> {
    Seq::new(ns.len(), |j: int| activation_bits(ns[j].weights@, xs, ns[j].bias, is_output))
}

/// The pre-activations a layer of neurons computes from the input `xs`.
pub open spec fn layer_pres(ns: Seq<Neuron>, xs: Seq<u64>) -> Seq<u64> {
    Seq::new(ns.len(), |j: int| pre_activation_bits(ns[j].weights@, xs, ns[j].bias))
}

/// The activations of layer `l` after the plain forward pass (before
/// softmax): layer 0 reads the image, each deeper layer the activations of
/// the layer before it; only layer `last` is the output layer.
pub open spec fn plain_acts(layers: Seq<Layer>, image: Seq<u64>, last: int, l: int) -> Seq<u64>
    decreases l,
{
    let input = if l <= 0 {
        image
    } else {
        plain_acts(layers, image, last, l - 1)
    };
    layer_acts(layers[l].neurons@, input, l == last)
}

/// The input vector layer `l` reads during the forward pass: the image for
/// layer 0, the activations of layer `l - 1` otherwise.
pub open spec fn input_acts(layers: Seq<Layer>, image: Seq<u64>, last: int, l: int) -> Seq<u64> {
    if l <= 0 {
        image
    } else {
        plain_acts(layers, image, last, l - 1)
    }
}

/// Exponentials of a vector of activations, elementwise.
pub open spec fn exp_acts(acts: Seq<u64>) -> Seq<u64> {
    Seq::new(acts.len(), |j: int| exp_bits(acts[j]))
}

/// The running sum of the first `n` entries of `xs`, accumulated left to
/// right starting from 0.0.
pub open spec fn sum_prefix(xs: Seq<u64>, n: int) -> u64
    decreases n,
{
    if n <= 0 {
        BITS_ZERO
    } else {
        add_bits(sum_prefix(xs, n - 1), xs[n - 1])
    }
}

/// Softmax of a vector of raw output activations: each exponential divided
/// by the running sum of all exponentials.
pub open spec fn softmax_bits(acts: Seq<u64>) -> Seq<u64> {
    Seq::new(
        acts.len(),
        |j: int| div_bits(exp_bits(acts[j]), sum_prefix(exp_acts(acts), acts.len() as int)),
    )
}

/// The probability distribution the whole network assigns to the classes on
/// the given image: softmax of the output layer's plain forward activations.
pub open spec fn network_output(layers: Seq<Layer>, image: Seq<u64>) -> Seq<u64> {
    softmax_bits(plain_acts(layers, image, layers.len() - 1, layers.len() - 1))
}

/// The pre-activation of neuron `j` of layer `l` after a full forward pass.
pub open spec fn forward_pre(layers: Seq<Layer>, image: Seq<u64>, l: int, j: int) -> u64 {
    layer_pres(layers[l].neurons@, input_acts(layers, image, layers.len() - 1, l))[j]
}

/// The activation of neuron `j` of layer `l` after a full forward pass:
/// softmax-normalized on the output layer, plain elsewhere.
pub open spec fn forward_act(layers: Seq<Layer>, image: Seq<u64>, l: int, j: int) -> u64 {
    if l == layers.len() - 1 {
        network_output(layers, image)[j]
    } else {
        plain_acts(layers, image, layers.len() - 1, l)[j]
    }
}

/// `nn` is the neuron `o` (of layer `l`, position `j`, in the network `layers`)
/// after a full forward pass on `image`: parameters and accumulators kept,
/// pre-activation and activation recomputed.
pub open spec fn forward_state(
    nn: Neuron,
    o: Neuron,
    layers: Seq<Layer>,
    image: Seq<u64>,
    l: int,
    j: int,
) -> bool {
    same_params(nn, o) && nn.pre_activation == forward_pre(layers, image, l, j) && nn.activation
        == forward_act(layers, image, l, j)
}

impl Layer {
    /// A fresh layer of `size_this_layer` neurons, each randomly initialized:
    /// Xavier-style for the output layer, He-style for any other.
    pub fn new(
        size_this_layer: usize,
        size_shallower_layer: usize,
        is_output_layer: bool,
    ) -> (r: Layer)
        requires
            size_shallower_layer >= 1,
            size_this_layer + size_shallower_layer <= usize::MAX,
        ensures
            r.neurons@.len() == size_this_layer,
            forall|j: int|
                0 <= j < size_this_layer ==> fresh_neuron(
                    #[trigger] r.neurons@[j],
                    size_shallower_layer as nat,
                ),
    {
        let mut neurons: Vec<Neuron> = Vec::with_capacity(size_this_layer);
        let mut j: usize = 0;
        while j < size_this_layer
            invariant
                j <= size_this_layer,
                neurons@.len() == j,
                size_shallower_layer >= 1,
                size_this_layer + size_shallower_layer <= usize::MAX,
                forall|k: int|
                    0 <= k < j ==> fresh_neuron(
                        #[trigger] neurons@[k],
                        size_shallower_layer as nat,
                    ),
            decreases size_this_layer - j,
        {
            neurons.push(
                if is_output_layer {
                    Neuron::new_xavier(size_shallower_layer, size_this_layer)
                } else {
                    Neuron::new_he(size_shallower_layer)
                },
            );
            j += 1;
        }
        Layer { neurons }
    }

    /// Runs the forward step of every neuron of this layer on the same
    /// upstream activations.
    pub fn set_neurons_activations(
        &mut self,
        ref_shallower_activations: &Vec<u64>,
        is_output_layer: bool,
    )
        requires
            forall|j: int|
                0 <= j < old(self).neurons@.len() ==> (#[trigger] old(self).neurons@[j]).weights@.len()
                    == ref_shallower_activations@.len(),
        ensures
            final(self).neurons@.len() == old(self).neurons@.len(),
            forall|j: int|
                0 <= j < old(self).neurons@.len() ==> forwarded_neuron(
                    #[trigger] final(self).neurons@[j],
                    old(self).neurons@[j],
                    ref_shallower_activations@,
                    is_output_layer,
                ),
    {
        let mut j: usize = 0;
        while j < self.neurons.len()
            invariant
                j <= self.neurons@.len(),
                self.neurons@.len() == old(self).neurons@.len(),
                forall|k: int|
                    0 <= k < old(self).neurons@.len() ==> (#[trigger] old(self).neurons@[k]).weights@.len() == ref_shallower_activations@.len(),
                forall|k: int|
                    0 <= k < j ==> forwarded_neuron(
                        #[trigger] self.neurons@[k],
                        old(self).neurons@[k],
                        ref_shallower_activations@,
                        is_output_layer,
                    ),
                forall|k: int|
                    j <= k < self.neurons@.len() ==> self.neurons@[k] == old(self).neurons@[k],
            decreases self.neurons@.len() - j,
        {
            self.neurons[j].set_activation(ref_shallower_activations, is_output_layer);
            j += 1;
        }
    }

    /// Copies out the activations of this layer's neurons, in neuron order.
    pub fn get_neurons_activations(&self) -> (r: Vec<u64>)
        ensures
            r@ == activations_of(self.neurons@),
    {
        let mut r: Vec<u64> = Vec::with_capacity(self.neurons.len());
        let mut j: usize = 0;
        while j < self.neurons.len()
            invariant
                j <= self.neurons@.len(),
                r@.len() == j,
                forall|k: int| 0 <= k < j ==> r@[k] == self.neurons@[k].activation,
            decreases self.neurons@.len() - j,
        {
            r.push(self.neurons[j].activation);
            j += 1;
        }
        proof {
            assert(r@ =~= activations_of(self.neurons@));
        }
        r
    }

    /// Writes the delta of neuron `j` and changes nothing else: the backward
    /// pass propagates error into a layer by index, never via back-pointers.
    pub(crate) fn set_neuron_delta(&mut self, j: usize, d: u64)
        requires
            j < old(self).neurons@.len(),
        ensures
            final(self).neurons@.len() == old(self).neurons@.len(),
            forall|m: int|
                0 <= m < old(self).neurons@.len() && m != j ==> #[trigger] final(self).neurons@[m] == old(self).neurons@[m],
            same_params(final(self).neurons@[j as int], old(self).neurons@[j as int]),
            final(self).neurons@[j as int].pre_activation == old(self).neurons@[j as int].pre_activation,
            final(self).neurons@[j as int].activation == old(self).neurons@[j as int].activation,
            final(self).neurons@[j as int].delta == d,
    {
        self.neurons[j].delta = d;
    }

    /// Runs the backward accumulation step of neuron `j` (see
    /// `Neuron::stack_correction_activations`) and changes nothing else.
    pub(crate) fn stack_neuron_correction(
        &mut self,
        j: usize,
        upstream_activations: &Vec<u64>,
        learning_rate: u64,
        is_output_layer: bool,
    )
        requires
            j < old(self).neurons@.len(),
            old(self).neurons@[j as int].fix_weights@.len() == upstream_activations@.len(),
        ensures
            final(self).neurons@.len() == old(self).neurons@.len(),
            forall|m: int|
                0 <= m < old(self).neurons@.len() && m != j ==> #[trigger] final(self).neurons@[m] == old(self).neurons@[m],
            corrected_neuron(
                final(self).neurons@[j as int],
                old(self).neurons@[j as int],
                upstream_activations@,
                learning_rate,
                is_output_layer,
            ),
    {
        self.neurons[j].stack_correction_activations(
            upstream_activations,
            learning_rate,
            is_output_layer,
        );
    }

    /// Applies the batch fix of neuron `j` (see `Neuron::apply_fixes`) and
    /// changes nothing else.
    pub(crate) fn apply_neuron_fixes(&mut self, j: usize, size_batch: usize)
        requires
            j < old(self).neurons@.len(),
            size_batch >= 1,
            old(self).neurons@[j as int].weights@.len() == old(self).neurons@[j as int].fix_weights@.len(),
        ensures
            final(self).neurons@.len() == old(self).neurons@.len(),
            forall|m: int|
                0 <= m < old(self).neurons@.len() && m != j ==> #[trigger] final(self).neurons@[m] == old(self).neurons@[m],
            applied_fixes(
                final(self).neurons@[j as int],
                old(self).neurons@[j as int],
                size_batch,
            ),
    {
        self.neurons[j].apply_fixes(size_batch);
    }

    /// Softmax over this layer's activations: every activation is replaced by
    /// its exponential divided by the running sum of all the exponentials.
    pub(crate) fn softmax_neurons(&mut self)
        ensures
            final(self).neurons@.len() == old(self).neurons@.len(),
            forall|j: int|
                0 <= j < old(self).neurons@.len() ==> {
                    let o = old(self).neurons@[j];
                    let nn = #[trigger] final(self).neurons@[j];
                    same_params(nn, o) && nn.delta == o.delta && nn.pre_activation
                        == o.pre_activation && nn.activation == softmax_bits(
                        activations_of(old(self).neurons@),
                    )[j]
                },
    {
        let ghost orig_acts = activations_of(old(self).neurons@);
        let mut exp_sum: u64 = BITS_ZERO;
        let mut j: usize = 0;
        while j < self.neurons.len()
            invariant
                j <= self.neurons@.len(),
                self.neurons@.len() == old(self).neurons@.len(),
                orig_acts == activations_of(old(self).neurons@),
                exp_sum == sum_prefix(exp_acts(orig_acts), j as int),
                forall|k: int|
                    0 <= k < j ==> {
                        let o = old(self).neurons@[k];
                        let nn = #[trigger] self.neurons@[k];
                        same_params(nn, o) && nn.delta == o.delta && nn.pre_activation
                            == o.pre_activation && nn.activation == exp_bits(o.activation)
                    },
                forall|k: int|
                    j <= k < self.neurons@.len() ==> self.neurons@[k] == old(self).neurons@[k],
            decreases self.neurons@.len() - j,
        {
            let e = f_exp(self.neurons[j].activation);
            self.neurons[j].activation = e;
            proof {
                assert(exp_acts(orig_acts)[j as int] == e);
            }
            exp_sum = f_add(exp_sum, e);
            j += 1;
        }
        let ghost total = sum_prefix(exp_acts(orig_acts), orig_acts.len() as int);
        proof {
            assert(exp_sum == total);
        }
        let mut k: usize = 0;
        while k < self.neurons.len()
            invariant
                k <= self.neurons@.len(),
                self.neurons@.len() == old(self).neurons@.len(),
                orig_acts == activations_of(old(self).neurons@),
                exp_sum == total,
                forall|m: int|
                    0 <= m < k ==> {
                        let o = old(self).neurons@[m];
                        let nn = #[trigger] self.neurons@[m];
                        same_params(nn, o) && nn.delta == o.delta && nn.pre_activation
                            == o.pre_activation && nn.activation == div_bits(
                            exp_bits(o.activation),
                            total,
                        )
                    },
                forall|m: int|
                    k <= m < self.neurons@.len() ==> {
                        let o = old(self).neurons@[m];
                        let nn = #[trigger] self.neurons@[m];
                        same_params(nn, o) && nn.delta == o.delta && nn.pre_activation
                            == o.pre_activation && nn.activation == exp_bits(o.activation)
                    },
            decreases self.neurons@.len() - k,
        {
            let d = f_div(self.neurons[k].activation, exp_sum);
            self.neurons[k].activation = d;
            k += 1;
        }
    }
}

/// Runs the full forward pass: each layer in order from the shallowest to the
/// deepest computes its activations from the layer before it (the image for
/// layer 0), and the deepest layer's raw activations are then normalized by
/// softmax into a probability distribution over the classes.
pub fn guess_answer(layers: &mut Vec<Layer>, image: &Vec<u64>)
    requires
        old(layers)@.len() >= 1,
        net_wf(old(layers)@, image@.len()),
    ensures
        final(layers)@.len() == old(layers)@.len(),
        forall|l: int|
            0 <= l < old(layers)@.len() ==> (#[trigger] final(layers)@[l]).neurons@.len() == old(layers)@[l].neurons@.len(),
        forall|l: int, j: int|
            0 <= l < old(layers)@.len() && 0 <= j < old(layers)@[l].neurons@.len() ==> {
                let o = old(layers)@[l].neurons@[j];
                let nn = #[trigger] final(layers)@[l].neurons@[j];
                forward_state(nn, o, old(layers)@, image@, l, j) && nn.delta == o.delta
            },
{
    let ghost orig = old(layers)@;
    let ghost last = orig.len() - 1;
    let last_i: usize = layers.len() - 1;
    let is_single: bool = last_i == 0;
    proof {
        assert(layer_wf(orig[0], image@.len()));
        assert forall|j: int| 0 <= j < orig[0].neurons@.len() implies (#[trigger] orig[0].neurons@[j]).weights@.len()
            == image@.len() by {
            assert(neuron_wf(orig[0].neurons@[j], image@.len()));
        }
    }
    layers[0].set_neurons_activations(image, is_single);
    let mut l: usize = 1;
    while l < layers.len()
        invariant
            1 <= l <= orig.len(),
            layers@.len() == orig.len(),
            last == orig.len() - 1,
            last_i == last,
            net_wf(orig, image@.len()),
            forall|m: int|
                0 <= m < orig.len() ==> (#[trigger] layers@[m]).neurons@.len()
                    == orig[m].neurons@.len(),
            forall|m: int, j: int|
                0 <= m < l && 0 <= j < orig[m].neurons@.len() ==> forwarded_neuron(
                    #[trigger] layers@[m].neurons@[j],
                    orig[m].neurons@[j],
                    input_acts(orig, image@, last, m),
                    m == last,
                ),
            forall|m: int, j: int|
                l <= m < orig.len() && 0 <= j < orig[m].neurons@.len()
                    ==> #[trigger] layers@[m].neurons@[j] == orig[m].neurons@[j],
        decreases layers@.len() - l,
    {
        let acts = layers[l - 1].get_neurons_activations();
        proof {
            assert(acts@ =~= plain_acts(orig, image@, last, l - 1)) by {
                assert forall|j: int| 0 <= j < orig[l - 1].neurons@.len() implies acts@[j]
                    == plain_acts(orig, image@, last, l - 1)[j] by {
                    assert(forwarded_neuron(
                        layers@[l - 1].neurons@[j],
                        orig[l - 1].neurons@[j],
                        input_acts(orig, image@, last, l - 1),
                        l - 1 == last,
                    ));
                }
            }
            assert forall|j: int| 0 <= j < orig[l as int].neurons@.len() implies (
            #[trigger] layers@[l as int].neurons@[j]).weights@.len() == acts@.len() by {
                assert(layer_wf(orig[l as int], orig[l - 1].neurons@.len()));
                assert(neuron_wf(orig[l as int].neurons@[j], orig[l - 1].neurons@.len()));
            }
        }
        let is_out: bool = l == last_i;
        layers[l].set_neurons_activations(&acts, is_out);
        proof {
            assert(acts@ == input_acts(orig, image@, last, l as int));
        }
        l += 1;
    }
    proof {
        assert forall|j: int| 0 <= j < orig[last].neurons@.len() implies activations_of(
            layers@[last].neurons@,
        )[j] == plain_acts(orig, image@, last, last)[j] by {
            assert(forwarded_neuron(
                layers@[last].neurons@[j],
                orig[last].neurons@[j],
                input_acts(orig, image@, last, last),
                true,
            ));
        }
        assert(activations_of(layers@[last].neurons@) =~= plain_acts(orig, image@, last, last));
    }
    layers[last_i].softmax_neurons();
}

/// The one-hot target for the true class `answer`: 1.0 at position `answer`,
/// 0.0 elsewhere.
pub open spec fn onehot_bits(j: int, answer: int) -> u64 {
    if j == answer {
        BITS_ONE
    } else {
        BITS_ZERO
    }
}

/// The deltas of the output layer: each softmax output minus its one-hot
/// target, the softmax + cross-entropy gradient simplification.
pub open spec fn output_deltas(out: Seq<u64>, answer: int) -> Seq<u64> {
    Seq::new(out.len(), |j: int| sub_bits(out[j], onehot_bits(j, answer)))
}

/// The delta accumulated into upstream neuron `k` once the first `j` neurons
/// of the deeper layer `ns` (with final deltas `ds`) have propagated: a
/// running sum of delta * weight starting from 0.0, in neuron order.
pub open spec fn propagated_delta(ns: Seq<Neuron>, ds: Seq<u64>, k: int, j: int) -> u64
    decreases j,
{
    if j <= 0 {
        BITS_ZERO
    } else {
        add_bits(propagated_delta(ns, ds, k, j - 1), mul_bits(ds[j - 1], ns[j - 1].weights@[k]))
    }
}

/// The delta vector of layer `l` during backpropagation on `image` with true
/// class `answer`: output deltas on the deepest layer, and on any shallower
/// layer the deltas propagated down from the layer above it.
pub open spec fn deltas_at(layers: Seq<Layer>, image: Seq<u64>, answer: int, l: int) -> Seq<u64>
    decreases layers.len() - l,
{
    let last = layers.len() - 1;
    if l >= last {
        output_deltas(network_output(layers, image), answer)
    } else {
        let up = deltas_at(layers, image, answer, l + 1);
        Seq::new(
            layers[l].neurons@.len(),
            |k: int|
                propagated_delta(
                    layers[l + 1].neurons@,
                    up,
                    k,
                    layers[l + 1].neurons@.len() as int,
                ),
        )
    }
}

/// The learning amount of neuron `j` of layer `l` during backpropagation:
/// learning rate times its delta, scaled by the rectifier derivative of its
/// pre-activation off the output layer.
pub open spec fn la_at(
    layers: Seq<Layer>,
    image: Seq<u64>,
    lr: u64,
    answer: int,
    l: int,
    j: int,
) -> u64 {
    learning_amount_bits(
        lr,
        deltas_at(layers, image, answer, l)[j],
        forward_pre(layers, image, l, j),
        l == layers.len() - 1,
    )
}

/// `nn` is the neuron `o` (of layer `l`, position `j`) after one full
/// backpropagation step on `image`: parameters kept, forward scratch as the
/// forward pass left it, delta cleared, and both accumulators grown by the
/// learning amount (times the upstream activation, for each weight).
pub open spec fn backprop_result(
    nn: Neuron,
    o: Neuron,
    layers: Seq<Layer>,
    image: Seq<u64>,
    lr: u64,
    answer: int,
    l: int,
    j: int,
) -> bool {
    let la = la_at(layers, image, lr, answer, l, j);
    nn.weights@ == o.weights@ && nn.bias == o.bias && nn.pre_activation == forward_pre(
        layers,
        image,
        l,
        j,
    ) && nn.activation == forward_act(layers, image, l, j) && nn.delta == BITS_ZERO && nn.fix_bias
        == add_bits(o.fix_bias, la) && nn.fix_weights@.len() == o.fix_weights@.len() && (forall|
        k: int,
    |
        0 <= k < o.fix_weights@.len() ==> nn.fix_weights@[k] == add_bits(
            o.fix_weights@[k],
            mul_bits(la, input_acts(layers, image, layers.len() - 1, l)[k]),
        ))
}

/// Runs backpropagation for one training example: the forward pass, the
/// output-layer deltas (softmax output minus one-hot target), gradient
/// accumulation and delta propagation from the deepest layer down to the
/// shallowest (which reads the image itself), and returns the example's
/// cross-entropy loss, -ln of the probability assigned to the true class.
#[verifier::rlimit(100)]
#[verifier::loop_isolation(false)]
pub fn backpropagation(
    layers: &mut Vec<Layer>,
    image: &Vec<u64>,
    learning_rate: u64,
    answer: usize,
) -> (r: u64)
    requires
        old(layers)@.len() >= 1,
        net_wf(old(layers)@, image@.len()),
        answer < old(layers)@[old(layers)@.len() - 1].neurons@.len(),
        forall|l: int, j: int|
            0 <= l < old(layers)@.len() && 0 <= j < old(layers)@[l].neurons@.len() ==> (
            #[trigger] old(layers)@[l].neurons@[j]).delta == BITS_ZERO,
    ensures
        final(layers)@.len() == old(layers)@.len(),
        forall|l: int|
            0 <= l < old(layers)@.len() ==> (#[trigger] final(layers)@[l]).neurons@.len() == old(layers)@[l].neurons@.len(),
        forall|l: int, j: int|
            0 <= l < old(layers)@.len() && 0 <= j < old(layers)@[l].neurons@.len()
                ==> backprop_result(
                #[trigger] final(layers)@[l].neurons@[j],
                old(layers)@[l].neurons@[j],
                old(layers)@,
                image@,
                learning_rate,
                answer as int,
                l,
                j,
            ),
        r == neg_bits(ln_bits(network_output(old(layers)@, image@)[answer as int])),
{
    let ghost orig = old(layers)@;
    let ghost last = orig.len() - 1;
    let ghost ans = answer as int;
    let ghost out = network_output(orig, image@);
    guess_answer(layers, image);
    let last_i: usize = layers.len() - 1;
    let mut j: usize = 0;
    while j < layers[last_i].neurons.len()
        invariant
            layers@.len() == orig.len(),
            forall|m: int|
                0 <= m < orig.len() ==> (#[trigger] layers@[m]).neurons@.len()
                    == orig[m].neurons@.len(),
            j <= orig[last].neurons@.len(),
            forall|m: int, i: int|
                0 <= m < orig.len() && 0 <= i < orig[m].neurons@.len() ==> forward_state(
                    #[trigger] layers@[m].neurons@[i],
                    orig[m].neurons@[i],
                    orig,
                    image@,
                    m,
                    i,
                ),
            forall|i: int|
                0 <= i < j ==> (#[trigger] layers@[last].neurons@[i]).delta == output_deltas(
                    out,
                    ans,
                )[i],
            forall|m: int, i: int|
                0 <= m < orig.len() && 0 <= i < orig[m].neurons@.len() && !(m == last && i < j)
                    ==> (#[trigger] layers@[m].neurons@[i]).delta == BITS_ZERO,
        decreases orig[last].neurons@.len() - j,
    {
        let t = if j == answer {
            BITS_ONE
        } else {
            BITS_ZERO
        };
        let a = layers[last_i].neurons[j].activation;
        let d = f_sub(a, t);
        layers[last_i].set_neuron_delta(j, d);
        j += 1;
    }
    proof {
        assert forall|i: int| 0 <= i < orig[last].neurons@.len() implies (
        #[trigger] layers@[last].neurons@[i]).delta == deltas_at(orig, image@, ans, last)[i] by {
            assert(layers@[last].neurons@[i].delta == output_deltas(out, ans)[i]);
        }
    }
    let mut l: usize = last_i;
    while l >= 1
        invariant
            l <= last,
            layers@.len() == orig.len(),
            forall|m: int|
                0 <= m < orig.len() ==> (#[trigger] layers@[m]).neurons@.len()
                    == orig[m].neurons@.len(),
            forall|m: int, i: int|
                l < m < orig.len() && 0 <= i < orig[m].neurons@.len() ==> backprop_result(
                    #[trigger] layers@[m].neurons@[i],
                    orig[m].neurons@[i],
                    orig,
                    image@,
                    learning_rate,
                    ans,
                    m,
                    i,
                ),
            forall|m: int, i: int|
                0 <= m <= l && 0 <= i < orig[m].neurons@.len() ==> forward_state(
                    #[trigger] layers@[m].neurons@[i],
                    orig[m].neurons@[i],
                    orig,
                    image@,
                    m,
                    i,
                ),
            forall|i: int|
                0 <= i < orig[l as int].neurons@.len() ==> (
                #[trigger] layers@[l as int].neurons@[i]).delta == deltas_at(
                    orig,
                    image@,
                    ans,
                    l as int,
                )[i],
            forall|m: int, i: int|
                0 <= m < l && 0 <= i < orig[m].neurons@.len() ==> (
                #[trigger] layers@[m].neurons@[i]).delta == BITS_ZERO,
        decreases l,
    {
        let ghost li = l as int;
        let up_acts = layers[l - 1].get_neurons_activations();
        proof {
            assert forall|i: int| 0 <= i < orig[li - 1].neurons@.len() implies up_acts@[i]
                == plain_acts(orig, image@, last, li - 1)[i] by {
                assert(forward_state(
                    layers@[li - 1].neurons@[i],
                    orig[li - 1].neurons@[i],
                    orig,
                    image@,
                    li - 1,
                    i,
                ));
            }
            assert(up_acts@ =~= plain_acts(orig, image@, last, li - 1));
            assert(up_acts@ == input_acts(orig, image@, last, li));
        }
        let is_out: bool = l == last_i;
        let ghost ds = deltas_at(orig, image@, ans, li);
        let mut j: usize = 0;
        while j < layers[l].neurons.len()
            invariant
                1 <= l <= last,
                j <= orig[li].neurons@.len(),
                layers@.len() == orig.len(),
                forall|m: int|
                    0 <= m < orig.len() ==> (#[trigger] layers@[m]).neurons@.len()
                        == orig[m].neurons@.len(),
                forall|m: int, i: int|
                    li < m < orig.len() && 0 <= i < orig[m].neurons@.len() ==> backprop_result(
                        #[trigger] layers@[m].neurons@[i],
                        orig[m].neurons@[i],
                        orig,
                        image@,
                        learning_rate,
                        ans,
                        m,
                        i,
                    ),
                forall|i: int|
                    0 <= i < j ==> backprop_result(
                        #[trigger] layers@[li].neurons@[i],
                        orig[li].neurons@[i],
                        orig,
                        image@,
                        learning_rate,
                        ans,
                        li,
                        i,
                    ),
                forall|i: int|
                    j <= i < orig[li].neurons@.len() ==> forward_state(
                        #[trigger] layers@[li].neurons@[i],
                        orig[li].neurons@[i],
                        orig,
                        image@,
                        li,
                        i,
                    ) && layers@[li].neurons@[i].delta == ds[i],
                forall|m: int, i: int|
                    0 <= m < li && 0 <= i < orig[m].neurons@.len() ==> forward_state(
                        #[trigger] layers@[m].neurons@[i],
                        orig[m].neurons@[i],
                        orig,
                        image@,
                        m,
                        i,
                    ),
                forall|i: int|
                    0 <= i < orig[li - 1].neurons@.len() ==> (
                    #[trigger] layers@[li - 1].neurons@[i]).delta == propagated_delta(
                        orig[li].neurons@,
                        ds,
                        i,
                        j as int,
                    ),
                forall|m: int, i: int|
                    0 <= m < li - 1 && 0 <= i < orig[m].neurons@.len() ==> (
                    #[trigger] layers@[m].neurons@[i]).delta == BITS_ZERO,
            decreases orig[li].neurons@.len() - j,
        {
            let ghost ji = j as int;
            proof {
                assert(layer_wf(orig[li], orig[li - 1].neurons@.len()));
                assert(neuron_wf(orig[li].neurons@[ji], orig[li - 1].neurons@.len()));
            }
            let d = layers[l].neurons[j].delta;
            layers[l].stack_neuron_correction(j, &up_acts, learning_rate, is_out);
            proof {
                assert(backprop_result(
                    layers@[li].neurons@[ji],
                    orig[li].neurons@[ji],
                    orig,
                    image@,
                    learning_rate,
                    ans,
                    li,
                    ji,
                ));
            }
            let mut k: usize = 0;
            while k < layers[l - 1].neurons.len()
                invariant
                    k <= orig[li - 1].neurons@.len(),
                    layers@.len() == orig.len(),
                    forall|m: int|
                        0 <= m < orig.len() ==> (#[trigger] layers@[m]).neurons@.len()
                            == orig[m].neurons@.len(),
                    forall|m: int, i: int|
                        li < m < orig.len() && 0 <= i < orig[m].neurons@.len() ==> backprop_result(
                            #[trigger] layers@[m].neurons@[i],
                            orig[m].neurons@[i],
                            orig,
                            image@,
                            learning_rate,
                            ans,
                            m,
                            i,
                        ),
                    forall|i: int|
                        0 <= i <= ji ==> backprop_result(
                            #[trigger] layers@[li].neurons@[i],
                            orig[li].neurons@[i],
                            orig,
                            image@,
                            learning_rate,
                            ans,
                            li,
                            i,
                        ),
                    forall|i: int|
                        ji < i < orig[li].neurons@.len() ==> forward_state(
                            #[trigger] layers@[li].neurons@[i],
                            orig[li].neurons@[i],
                            orig,
                            image@,
                            li,
                            i,
                        ) && layers@[li].neurons@[i].delta == ds[i],
                    forall|m: int, i: int|
                        0 <= m < li && 0 <= i < orig[m].neurons@.len() ==> forward_state(
                            #[trigger] layers@[m].neurons@[i],
                            orig[m].neurons@[i],
                            orig,
                            image@,
                            m,
                            i,
                        ),
                    forall|i: int|
                        0 <= i < k ==> (#[trigger] layers@[li - 1].neurons@[i]).delta
                            == propagated_delta(orig[li].neurons@, ds, i, ji + 1),
                    forall|i: int|
                        k <= i < orig[li - 1].neurons@.len() ==> (
                        #[trigger] layers@[li - 1].neurons@[i]).delta == propagated_delta(
                            orig[li].neurons@,
                            ds,
                            i,
                            ji,
                        ),
                    forall|m: int, i: int|
                        0 <= m < li - 1 && 0 <= i < orig[m].neurons@.len() ==> (
                        #[trigger] layers@[m].neurons@[i]).delta == BITS_ZERO,
                decreases orig[li - 1].neurons@.len() - k,
            {
                let w = layers[l].neurons[j].weights[k];
                let cur = layers[l - 1].neurons[k].delta;
                let nd = f_add(cur, f_mul(d, w));
                layers[l - 1].set_neuron_delta(k, nd);
                k += 1;
            }
            j += 1;
        }
        proof {
            assert forall|i: int| 0 <= i < orig[li - 1].neurons@.len() implies (
            #[trigger] layers@[li - 1].neurons@[i]).delta == deltas_at(
                orig,
                image@,
                ans,
                li - 1,
            )[i] by {
                assert(layers@[li - 1].neurons@[i].delta == propagated_delta(
                    orig[li].neurons@,
                    ds,
                    i,
                    orig[li].neurons@.len() as int,
                ));
            }
        }
        l -= 1;
    }
    let is_out0: bool = last_i == 0;
    let ghost ds0 = deltas_at(orig, image@, ans, 0);
    let mut j0: usize = 0;
    while j0 < layers[0].neurons.len()
        invariant
            j0 <= orig[0].neurons@.len(),
            layers@.len() == orig.len(),
            forall|m: int|
                0 <= m < orig.len() ==> (#[trigger] layers@[m]).neurons@.len()
                    == orig[m].neurons@.len(),
            forall|m: int, i: int|
                0 < m < orig.len() && 0 <= i < orig[m].neurons@.len() ==> backprop_result(
                    #[trigger] layers@[m].neurons@[i],
                    orig[m].neurons@[i],
                    orig,
                    image@,
                    learning_rate,
                    ans,
                    m,
                    i,
                ),
            forall|i: int|
                0 <= i < j0 ==> backprop_result(
                    #[trigger] layers@[0].neurons@[i],
                    orig[0].neurons@[i],
                    orig,
                    image@,
                    learning_rate,
                    ans,
                    0,
                    i,
                ),
            forall|i: int|
                j0 <= i < orig[0].neurons@.len() ==> forward_state(
                    #[trigger] layers@[0].neurons@[i],
                    orig[0].neurons@[i],
                    orig,
                    image@,
                    0,
                    i,
                ) && layers@[0].neurons@[i].delta == ds0[i],
        decreases orig[0].neurons@.len() - j0,
    {
        proof {
            assert(layer_wf(orig[0], image@.len()));
            assert(neuron_wf(orig[0].neurons@[j0 as int], image@.len()));
        }
        layers[0].stack_neuron_correction(j0, image, learning_rate, is_out0);
        j0 += 1;
    }
    let out_act = layers[last_i].neurons[answer].activation;
    neg(f_ln(out_act))
}

/// Applies the averaged batch update to every neuron of every layer (see
/// `Neuron::apply_fixes`), leaving all gradient accumulators at 0.0 so the
/// next batch starts clean.
#[verifier::loop_isolation(false)]
pub fn apply_neurons_fixes(layers: &mut Vec<Layer>, size_batch: usize)
    requires
        size_batch >= 1,
        forall|l: int, j: int|
            0 <= l < old(layers)@.len() && 0 <= j < old(layers)@[l].neurons@.len() ==> (
            #[trigger] old(layers)@[l].neurons@[j]).weights@.len() == old(layers)@[l].neurons@[j].fix_weights@.len(),
    ensures
        final(layers)@.len() == old(layers)@.len(),
        forall|l: int|
            0 <= l < old(layers)@.len() ==> (#[trigger] final(layers)@[l]).neurons@.len() == old(layers)@[l].neurons@.len(),
        forall|l: int, j: int|
            0 <= l < old(layers)@.len() && 0 <= j < old(layers)@[l].neurons@.len()
                ==> applied_fixes(
                #[trigger] final(layers)@[l].neurons@[j],
                old(layers)@[l].neurons@[j],
                size_batch,
            ),
{
    let ghost orig = old(layers)@;
    let mut l: usize = 0;
    while l < layers.len()
        invariant
            l <= orig.len(),
            layers@.len() == orig.len(),
            forall|m: int|
                0 <= m < orig.len() ==> (#[trigger] layers@[m]).neurons@.len()
                    == orig[m].neurons@.len(),
            forall|m: int, i: int|
                0 <= m < l && 0 <= i < orig[m].neurons@.len() ==> applied_fixes(
                    #[trigger] layers@[m].neurons@[i],
                    orig[m].neurons@[i],
                    size_batch,
                ),
            forall|m: int, i: int|
                l <= m < orig.len() && 0 <= i < orig[m].neurons@.len()
                    ==> #[trigger] layers@[m].neurons@[i] == orig[m].neurons@[i],
        decreases orig.len() - l,
    {
        let ghost li = l as int;
        let mut j: usize = 0;
        while j < layers[l].neurons.len()
            invariant
                j <= orig[li].neurons@.len(),
                layers@.len() == orig.len(),
                forall|m: int|
                    0 <= m < orig.len() ==> (#[trigger] layers@[m]).neurons@.len()
                        == orig[m].neurons@.len(),
                forall|m: int, i: int|
                    0 <= m < li && 0 <= i < orig[m].neurons@.len() ==> applied_fixes(
                        #[trigger] layers@[m].neurons@[i],
                        orig[m].neurons@[i],
                        size_batch,
                    ),
                forall|i: int|
                    0 <= i < j ==> applied_fixes(
                        #[trigger] layers@[li].neurons@[i],
                        orig[li].neurons@[i],
                        size_batch,
                    ),
                forall|i: int|
                    j <= i < orig[li].neurons@.len() ==> #[trigger] layers@[li].neurons@[i]
                        == orig[li].neurons@[i],
                forall|m: int, i: int|
                    li < m < orig.len() && 0 <= i < orig[m].neurons@.len()
                        ==> #[trigger] layers@[m].neurons@[i] == orig[m].neurons@[i],
            decreases orig[li].neurons@.len() - j,
        {
            layers[l].apply_neuron_fixes(j, size_batch);
            j += 1;
        }
        l += 1;
    }
}

} // verus!
