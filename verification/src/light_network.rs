//! The inference-only network: neurons reduced to weights, bias and the
//! current activation — no gradient scratch. It is loaded from an encoded
//! model and runs the same forward pass and softmax as the training network;
//! `lemma_light_matches_training` states that on equal parameters the two
//! representations produce identical outputs.

use vstd::prelude::*;

use crate::binary_load::{be64_at, load_neuron, LoadError};
use crate::fbits::{div_bits, exp_bits, f_add, f_div, f_exp, f_mul, BITS_ZERO};
use crate::network::{
    activation_bits, dot_prefix, exp_acts, leaky_relu, network_output, plain_acts, softmax_bits,
    sum_prefix, Layer,
};

verus! {

/// One inference neuron: parameters and the activation, nothing else.
pub struct LightNeuron {
    pub weights: Vec<u64>,
    pub bias: u64,
    pub activation: u64,
}

/// One inference layer: an ordered sequence of inference neurons.
pub struct LightLayer {
    pub neurons: Vec<LightNeuron>,
}

/// Every neuron of the layer has the upstream layer's length.
pub open spec fn light_layer_wf(layer: LightLayer, upstream: nat) -> bool {
    forall|j: int|
        0 <= j < layer.neurons@.len() ==> (#[trigger] layer.neurons@[j]).weights@.len() == upstream
}

/// Layer 0 matches the input dimensionality; every deeper layer matches the
/// neuron count of the layer before it.
pub open spec fn light_net_wf(layers: Seq<LightLayer>, input_dim: nat) -> bool {
    forall|l: int|
        0 <= l < layers.len() ==> light_layer_wf(
            #[trigger] layers[l],
            if l == 0 {
                input_dim
            } else {
                layers[l - 1].neurons@.len()
            },
        )
}

/// The activations of a sequence of inference neurons, in neuron order.
pub open spec fn light_activations_of(ns: Seq<LightNeuron>) -> Seq<u64> {
    Seq::new(ns.len(), |j: int| ns[j].activation)
}

/// The activations an inference layer computes from the input `xs`.
pub open spec fn light_layer_acts(ns: Seq<LightNeuron>, xs: Seq<u64>, is_output: bool) -> Seq<u64> {
    Seq::new(ns.len(), |j: int| activation_bits(ns[j].weights@, xs, ns[j].bias, is_output))
}

/// The activations of inference layer `l` after the plain forward pass.
pub open spec fn light_plain_acts(
    layers: Seq<LightLayer>,
    image: Seq<u64>,
    last: int,
    l: int,
) -> Seq<u64>
    decreases l,
{
    let input = if l <= 0 {
        image
    } else {
        light_plain_acts(layers, image, last, l - 1)
    };
    light_layer_acts(layers[l].neurons@, input, l == last)
}

/// The input vector inference layer `l` reads during the forward pass.
pub open spec fn light_input_acts(
    layers: Seq<LightLayer>,
    image: Seq<u64>,
    last: int,
    l: int,
) -> Seq<u64> {
    if l <= 0 {
        image
    } else {
        light_plain_acts(layers, image, last, l - 1)
    }
}

/// The probability distribution the inference network assigns to the classes.
pub open spec fn light_network_output(layers: Seq<LightLayer>, image: Seq<u64>) -> Seq<u64> {
    softmax_bits(light_plain_acts(layers, image, layers.len() - 1, layers.len() - 1))
}

/// `nn` is `o` after one forward step on `xs`: parameters kept, activation
/// recomputed.
pub open spec fn light_forwarded(nn: LightNeuron, o: LightNeuron, xs: Seq<u64>, is_output: bool) -> bool {
    nn.weights@ == o.weights@ && nn.bias == o.bias && nn.activation == activation_bits(
        o.weights@,
        xs,
        o.bias,
        is_output,
    )
}

impl LightNeuron {
    /// Decodes one inference neuron from the record at `start`: the weights,
    /// then the bias; the activation starts at 0.0. Fails exactly when the
    /// record runs past the end of the buffer — a malformed record invalidates
    /// the whole model load.
    pub fn new(data: &Vec<u8>, start: usize, size_shallower_layer: usize) -> (r: Result<
        LightNeuron,
        LoadError,
    >)
        ensures
            start + 8 * (size_shallower_layer + 1) <= data@.len() ==> r is Ok,
            start + 8 * (size_shallower_layer + 1) > data@.len() ==> r == Err::<
                LightNeuron,
                LoadError,
            >(LoadError::Truncated),
            r is Ok ==> r->Ok_0.weights@.len() == size_shallower_layer && (forall|i: int|
                0 <= i < size_shallower_layer ==> r->Ok_0.weights@[i] == be64_at(
                    data@,
                    start + 8 * i,
                )) && r->Ok_0.bias == be64_at(data@, start + 8 * size_shallower_layer)
                && r->Ok_0.activation == BITS_ZERO,
    {
        match load_neuron(data, start, size_shallower_layer) {
            Ok((weights, bias)) => Ok(LightNeuron { weights, bias, activation: BITS_ZERO }),
            Err(e) => Err(e),
        }
    }

    /// Computes this neuron's activation over the upstream activations: the
    /// dot product plus bias, passed through the leaky rectifier off the
    /// output layer.
    pub fn set_activation(&mut self, ref_shallower_activations: &Vec<u64>, is_output_layer: bool)
        requires
            old(self).weights@.len() == ref_shallower_activations@.len(),
        ensures
            light_forwarded(*final(self), *old(self), ref_shallower_activations@, is_output_layer),
    {
        self.activation = BITS_ZERO;
        let mut i: usize = 0;
        while i < self.weights.len()
            invariant
                i <= self.weights@.len(),
                self.weights@.len() == ref_shallower_activations@.len(),
                self.weights@ == old(self).weights@,
                self.bias == old(self).bias,
                self.activation == dot_prefix(
                    self.weights@,
                    ref_shallower_activations@,
                    i as int,
                ),
            decreases self.weights@.len() - i,
        {
            let term = f_mul(self.weights[i], ref_shallower_activations[i]);
            self.activation = f_add(self.activation, term);
            i += 1;
        }
        self.activation = if is_output_layer {
            f_add(self.activation, self.bias)
        } else {
            leaky_relu(f_add(self.activation, self.bias))
        };
    }
}

impl LightLayer {
    /// Decodes one inference layer: `size_this_layer` neuron records read
    /// consecutively from the start of `data`. Fails exactly when the records
    /// run past the end of the buffer; one malformed record aborts the whole
    /// layer, so no partially initialized layer is ever returned.
    #[verifier::loop_isolation(false)]
    pub fn new(data: &Vec<u8>, size_this_layer: usize, size_shallower_layer: usize) -> (r: Result<
        LightLayer,
        LoadError,
    >)
        ensures
            size_this_layer * ((size_shallower_layer + 1) * 8) <= data@.len() ==> r is Ok,
            size_this_layer * ((size_shallower_layer + 1) * 8) > data@.len() ==> r == Err::<
                LightLayer,
                LoadError,
            >(LoadError::Truncated),
            r is Ok ==> r->Ok_0.neurons@.len() == size_this_layer && (forall|j: int, i: int|
                0 <= j < size_this_layer && 0 <= i < size_shallower_layer
                    ==> #[trigger] r->Ok_0.neurons@[j].weights@[i] == be64_at(
                    data@,
                    j * ((size_shallower_layer + 1) * 8) + 8 * i,
                )) && (forall|j: int|
                0 <= j < size_this_layer ==> (#[trigger] r->Ok_0.neurons@[j]).weights@.len()
                    == size_shallower_layer && r->Ok_0.neurons@[j].bias == be64_at(
                    data@,
                    j * ((size_shallower_layer + 1) * 8) + 8 * size_shallower_layer,
                ) && r->Ok_0.neurons@[j].activation == BITS_ZERO),
    {
        proof {
            vstd::std_specs::vec::axiom_spec_len(data);
        }
        let ghost rec = ((size_shallower_layer + 1) * 8) as int;
        let mut neurons: Vec<LightNeuron> = Vec::with_capacity(size_this_layer);
        let mut offset: usize = 0;
        let mut j: usize = 0;
        while j < size_this_layer
            invariant
                j <= size_this_layer,
                neurons@.len() == j,
                offset == j * rec,
                offset <= data@.len(),
                forall|k: int, i: int|
                    0 <= k < j && 0 <= i < size_shallower_layer
                        ==> #[trigger] neurons@[k].weights@[i] == be64_at(data@, k * rec + 8 * i),
                forall|k: int|
                    0 <= k < j ==> (#[trigger] neurons@[k]).weights@.len() == size_shallower_layer
                        && neurons@[k].bias == be64_at(data@, k * rec + 8 * size_shallower_layer)
                        && neurons@[k].activation == BITS_ZERO,
            decreases size_this_layer - j,
        {
            match LightNeuron::new(data, offset, size_shallower_layer) {
                Ok(neuron) => {
                    neurons.push(neuron);
                },
                Err(e) => {
                    proof {
                        assert(offset + rec > data@.len());
                        assert(size_this_layer * rec >= (j + 1) * rec) by (nonlinear_arith)
                            requires
                                j + 1 <= size_this_layer,
                                rec >= 0,
                        ;
                        assert((j + 1) * rec == j * rec + rec) by (nonlinear_arith);
                    }
                    return Err(e);
                },
            }
            offset = offset + 8 * size_shallower_layer + 8;
            proof {
                assert((j + 1) * rec == j * rec + rec) by (nonlinear_arith);
            }
            j += 1;
        }
        proof {
            assert(size_this_layer * rec == offset);
        }
        Ok(LightLayer { neurons })
    }

    /// Runs the forward step of every neuron of this layer on the same
    /// upstream activations.
    pub fn set_neurons_activations(
        &mut self,
        ref_shallower_activations: &Vec<u64>,
        is_output_layer: bool,
    )
        requires
            forall|j: int|
                0 <= j < old(self).neurons@.len() ==> (#[trigger] old(self).neurons@[j]).weights@.len()
                    == ref_shallower_activations@.len(),
        ensures
            final(self).neurons@.len() == old(self).neurons@.len(),
            forall|j: int|
                0 <= j < old(self).neurons@.len() ==> light_forwarded(
                    #[trigger] final(self).neurons@[j],
                    old(self).neurons@[j],
                    ref_shallower_activations@,
                    is_output_layer,
                ),
    {
        let mut j: usize = 0;
        while j < self.neurons.len()
            invariant
                j <= self.neurons@.len(),
                self.neurons@.len() == old(self).neurons@.len(),
                forall|k: int|
                    0 <= k < old(self).neurons@.len() ==> (#[trigger] old(
                        self,
                    ).neurons@[k]).weights@.len() == ref_shallower_activations@.len(),
                forall|k: int|
                    0 <= k < j ==> light_forwarded(
                        #[trigger] self.neurons@[k],
                        old(self).neurons@[k],
                        ref_shallower_activations@,
                        is_output_layer,
                    ),
                forall|k: int|
                    j <= k < self.neurons@.len() ==> self.neurons@[k] == old(self).neurons@[k],
            decreases self.neurons@.len() - j,
        {
            self.neurons[j].set_activation(ref_shallower_activations, is_output_layer);
            j += 1;
        }
    }

    /// Copies out the activations of this layer's neurons, in neuron order.
    pub fn get_neurons_activations(&self) -> (r: Vec<u64>)
        ensures
            r@ == light_activations_of(self.neurons@),
    {
        let mut r: Vec<u64> = Vec::with_capacity(self.neurons.len());
        let mut j: usize = 0;
        while j < self.neurons.len()
            invariant
                j <= self.neurons@.len(),
                r@.len() == j,
                forall|k: int| 0 <= k < j ==> r@[k] == self.neurons@[k].activation,
            decreases self.neurons@.len() - j,
        {
            r.push(self.neurons[j].activation);
            j += 1;
        }
        proof {
            assert(r@ =~= light_activations_of(self.neurons@));
        }
        r
    }

    /// Softmax over this layer's activations.
    pub(crate) fn softmax_neurons(&mut self)
        ensures
            final(self).neurons@.len() == old(self).neurons@.len(),
            forall|j: int|
                0 <= j < old(self).neurons@.len() ==> {
                    let o = old(self).neurons@[j];
                    let nn = #[trigger] final(self).neurons@[j];
                    nn.weights@ == o.weights@ && nn.bias == o.bias && nn.activation
                        == softmax_bits(light_activations_of(old(self).neurons@))[j]
                },
    {
        let ghost orig_acts = light_activations_of(old(self).neurons@);
        let mut exp_sum: u64 = BITS_ZERO;
        let mut j: usize = 0;
        while j < self.neurons.len()
            invariant
                j <= self.neurons@.len(),
                self.neurons@.len() == old(self).neurons@.len(),
                orig_acts == light_activations_of(old(self).neurons@),
                exp_sum == sum_prefix(exp_acts(orig_acts), j as int),
                forall|k: int|
                    0 <= k < j ==> {
                        let o = old(self).neurons@[k];
                        let nn = #[trigger] self.neurons@[k];
                        nn.weights@ == o.weights@ && nn.bias == o.bias && nn.activation
                            == exp_bits(o.activation)
                    },
                forall|k: int|
                    j <= k < self.neurons@.len() ==> self.neurons@[k] == old(self).neurons@[k],
            decreases self.neurons@.len() - j,
        {
            let e = f_exp(self.neurons[j].activation);
            self.neurons[j].activation = e;
            proof {
                assert(exp_acts(orig_acts)[j as int] == e);
            }
            exp_sum = f_add(exp_sum, e);
            j += 1;
        }
        let ghost total = sum_prefix(exp_acts(orig_acts), orig_acts.len() as int);
        let mut k: usize = 0;
        while k < self.neurons.len()
            invariant
                k <= self.neurons@.len(),
                self.neurons@.len() == old(self).neurons@.len(),
                orig_acts == light_activations_of(old(self).neurons@),
                exp_sum == total,
                forall|m: int|
                    0 <= m < k ==> {
                        let o = old(self).neurons@[m];
                        let nn = #[trigger] self.neurons@[m];
                        nn.weights@ == o.weights@ && nn.bias == o.bias && nn.activation
                            == div_bits(exp_bits(o.activation), total)
                    },
                forall|m: int|
                    k <= m < self.neurons@.len() ==> {
                        let o = old(self).neurons@[m];
                        let nn = #[trigger] self.neurons@[m];
                        nn.weights@ == o.weights@ && nn.bias == o.bias && nn.activation
                            == exp_bits(o.activation)
                    },
            decreases self.neurons@.len() - k,
        {
            let d = f_div(self.neurons[k].activation, exp_sum);
            self.neurons[k].activation = d;
            k += 1;
        }
    }
}

/// Runs the inference network's full forward pass: layer by layer from the
/// shallowest, then softmax over the deepest layer — the same chain of
/// floating-point operations as the training network's forward pass.
#[verifier::rlimit(50)]
pub fn guess_answer(layers: &mut Vec<LightLayer>, image: &Vec<u64>)
    requires
        old(layers)@.len() >= 1,
        light_net_wf(old(layers)@, image@.len()),
    ensures
        final(layers)@.len() == old(layers)@.len(),
        forall|l: int|
            0 <= l < old(layers)@.len() ==> (#[trigger] final(layers)@[l]).neurons@.len() == old(
                layers,
            )@[l].neurons@.len(),
        forall|l: int, j: int|
            0 <= l < old(layers)@.len() && 0 <= j < old(layers)@[l].neurons@.len() ==> {
                let o = old(layers)@[l].neurons@[j];
                let nn = #[trigger] final(layers)@[l].neurons@[j];
                let last = old(layers)@.len() - 1;
                nn.weights@ == o.weights@ && nn.bias == o.bias && nn.activation == (if l == last {
                    light_network_output(old(layers)@, image@)[j]
                } else {
                    light_plain_acts(old(layers)@, image@, last, l)[j]
                })
            },
{
    let ghost orig = old(layers)@;
    let ghost last = orig.len() - 1;
    let last_i: usize = layers.len() - 1;
    let is_single: bool = last_i == 0;
    proof {
        assert(light_layer_wf(orig[0], image@.len()));
    }
    layers[0].set_neurons_activations(image, is_single);
    let mut l: usize = 1;
    while l < layers.len()
        invariant
            1 <= l <= orig.len(),
            layers@.len() == orig.len(),
            last == orig.len() - 1,
            last_i == last,
            light_net_wf(orig, image@.len()),
            forall|m: int|
                0 <= m < orig.len() ==> (#[trigger] layers@[m]).neurons@.len()
                    == orig[m].neurons@.len(),
            forall|m: int, j: int|
                0 <= m < l && 0 <= j < orig[m].neurons@.len() ==> light_forwarded(
                    #[trigger] layers@[m].neurons@[j],
                    orig[m].neurons@[j],
                    light_input_acts(orig, image@, last, m),
                    m == last,
                ),
            forall|m: int, j: int|
                l <= m < orig.len() && 0 <= j < orig[m].neurons@.len()
                    ==> #[trigger] layers@[m].neurons@[j] == orig[m].neurons@[j],
        decreases layers@.len() - l,
    {
        let acts = layers[l - 1].get_neurons_activations();
        proof {
            assert forall|j: int| 0 <= j < orig[l - 1].neurons@.len() implies acts@[j]
                == light_plain_acts(orig, image@, last, l - 1)[j] by {
                assert(light_forwarded(
                    layers@[l - 1].neurons@[j],
                    orig[l - 1].neurons@[j],
                    light_input_acts(orig, image@, last, l - 1),
                    l - 1 == last,
                ));
            }
            assert(acts@ =~= light_plain_acts(orig, image@, last, l - 1));
            assert(light_layer_wf(orig[l as int], orig[l - 1].neurons@.len()));
        }
        let is_out: bool = l == last_i;
        layers[l].set_neurons_activations(&acts, is_out);
        proof {
            assert(acts@ == light_input_acts(orig, image@, last, l as int));
        }
        l += 1;
    }
    proof {
        assert forall|j: int| 0 <= j < orig[last].neurons@.len() implies light_activations_of(
            layers@[last].neurons@,
        )[j] == light_plain_acts(orig, image@, last, last)[j] by {
            assert(light_forwarded(
                layers@[last].neurons@[j],
                orig[last].neurons@[j],
                light_input_acts(orig, image@, last, last),
                true,
            ));
        }
        assert(light_activations_of(layers@[last].neurons@) =~= light_plain_acts(
            orig,
            image@,
            last,
            last,
        ));
    }
    layers[last_i].softmax_neurons();
}

/// The two representations compute the same plain forward activations, layer
/// by layer, when their parameters agree.
proof fn lemma_plain_acts_agree(
    tl: Seq<Layer>,
    ll: Seq<LightLayer>,
    image: Seq<u64>,
    last: int,
    l: int,
)
    requires
        tl.len() == ll.len(),
        forall|m: int|
            0 <= m < tl.len() ==> (#[trigger] ll[m]).neurons@.len() == tl[m].neurons@.len(),
        forall|m: int, j: int|
            0 <= m < tl.len() && 0 <= j < tl[m].neurons@.len() ==> (
            #[trigger] ll[m].neurons@[j]).weights@ == tl[m].neurons@[j].weights@
                && ll[m].neurons@[j].bias == tl[m].neurons@[j].bias,
        0 <= l < tl.len(),
    ensures
        light_plain_acts(ll, image, last, l) == plain_acts(tl, image, last, l),
    decreases l,
{
    if l > 0 {
        lemma_plain_acts_agree(tl, ll, image, last, l - 1);
    }
    assert(light_plain_acts(ll, image, last, l) =~= plain_acts(tl, image, last, l));
}

/// Law: cross-representation equivalence. On identical parameters and the
/// same image, the inference network's output distribution is identical to
/// the training network's — both are the same chain of IEEE 754 operations.
pub proof fn lemma_light_matches_training(tl: Seq<Layer>, ll: Seq<LightLayer>, image: Seq<u64>)
    requires
        tl.len() == ll.len(),
        tl.len() >= 1,
        forall|m: int|
            0 <= m < tl.len() ==> (#[trigger] ll[m]).neurons@.len() == tl[m].neurons@.len(),
        forall|m: int, j: int|
            0 <= m < tl.len() && 0 <= j < tl[m].neurons@.len() ==> (
            #[trigger] ll[m].neurons@[j]).weights@ == tl[m].neurons@[j].weights@
                && ll[m].neurons@[j].bias == tl[m].neurons@[j].bias,
    ensures
        light_network_output(ll, image) == network_output(tl, image),
{
    lemma_plain_acts_agree(tl, ll, image, tl.len() - 1, tl.len() - 1);
}

} // verus!
