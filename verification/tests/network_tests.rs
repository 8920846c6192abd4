//! The network engine: activation functions, forward pass with softmax,
//! backpropagation, batch fixes, and the agreement between the training and
//! inference representations.

use digitnet::binary_save::encode_layer;
use digitnet::light_network::{self, LightLayer};
use digitnet::lite_network::{self, LiteLayer};
use digitnet::network::{
    apply_neurons_fixes, backpropagation, derivative_leaky_relu, guess_answer, leaky_relu, Layer,
    Neuron,
};

fn neuron_with(weights: Vec<f64>, bias: f64) -> Neuron {
    let n = weights.len();
    Neuron {
        weights: weights.into_iter().map(f64::to_bits).collect(),
        fix_weights: vec![0u64; n],
        bias: bias.to_bits(),
        fix_bias: 0,
        pre_activation: 0,
        activation: 0,
        delta: 0,
    }
}

fn bits_vec(xs: &[f64]) -> Vec<u64> {
    xs.iter().copied().map(f64::to_bits).collect()
}

fn floats(xs: &[u64]) -> Vec<f64> {
    xs.iter().copied().map(f64::from_bits).collect()
}

#[test]
fn leaky_relu_values() {
    for &x in &[-1000.0, -1.0, -0.04, -1e-9, 0.0, -0.0, 1e-9, 1.0, 2.5, 1000.0] {
        let expected: f64 = if x >= 0.0 { x } else { x * -0.04 };
        assert_eq!(f64::from_bits(leaky_relu(f64::to_bits(x))), expected);
    }
}

#[test]
fn derivative_leaky_relu_spans_zero() {
    for &x in &[-1000.0, -1.0, -1e-300, -0.0, 0.0, 1e-300, 1.0, 1000.0] {
        let expected: f64 = if x >= 0.0 { 1.0 } else { -0.04 };
        assert_eq!(f64::from_bits(derivative_leaky_relu(f64::to_bits(x))), expected);
    }
}

#[test]
fn fresh_layer_shape() {
    let layer = Layer::new(3, 5, false);
    assert_eq!(layer.neurons.len(), 3);
    for neuron in &layer.neurons {
        assert_eq!(neuron.weights.len(), 5);
        assert_eq!(neuron.fix_weights, vec![0u64; 5]);
        assert_eq!(neuron.bias, 0);
        assert_eq!(neuron.delta, 0);
        assert!(neuron.weights.iter().any(|w| *w != 0));
    }
}

#[test]
fn forward_pass_is_a_distribution() {
    let mut layers = vec![Layer::new(5, 4, false), Layer::new(3, 5, true)];
    let image = bits_vec(&[0.2, 0.9, 0.0, 0.5]);
    guess_answer(&mut layers, &image);
    let out = floats(&layers.last().unwrap().get_neurons_activations());
    let sum: f64 = out.iter().sum();
    assert!((sum - 1.0).abs() < 1e-9, "softmax outputs sum to {}", sum);
    for &p in &out {
        assert!((0.0..=1.0).contains(&p), "output {} out of range", p);
    }
}

#[test]
fn forward_pass_single_output_layer() {
    // w . x + b, identity activation, then softmax
    let mut layers = vec![
        Layer {
            neurons: vec![neuron_with(vec![0.5, -0.25], 0.1), neuron_with(vec![-0.3, 0.8], -0.2)],
        },
    ];
    let image = bits_vec(&[0.6, 0.9]);
    guess_answer(&mut layers, &image);
    let pre0 = ((0.0 + 0.5 * 0.6) + (-0.25) * 0.9) + 0.1;
    let pre1 = ((0.0 + (-0.3) * 0.6) + 0.8 * 0.9) + (-0.2);
    let e0 = libm::exp(pre0);
    let e1 = libm::exp(pre1);
    let sum = (0.0 + e0) + e1;
    let out = floats(&layers[0].get_neurons_activations());
    assert_eq!(out[0].to_bits(), (e0 / sum).to_bits());
    assert_eq!(out[1].to_bits(), (e1 / sum).to_bits());
    assert_eq!(f64::from_bits(layers[0].neurons[0].pre_activation).to_bits(), pre0.to_bits());
}

#[test]
fn backpropagation_output_layer_gradients() {
    let mut layers = vec![
        Layer {
            neurons: vec![neuron_with(vec![0.5, -0.25], 0.1), neuron_with(vec![-0.3, 0.8], -0.2)],
        },
    ];
    let x = [0.6, 0.9];
    let image = bits_vec(&x);
    let lr: f64 = 0.5;
    let loss = backpropagation(&mut layers, &image, lr.to_bits(), 1);

    let pre0 = ((0.0 + 0.5 * x[0]) + (-0.25) * x[1]) + 0.1;
    let pre1 = ((0.0 + (-0.3) * x[0]) + 0.8 * x[1]) + (-0.2);
    let e0 = libm::exp(pre0);
    let e1 = libm::exp(pre1);
    let sum = (0.0 + e0) + e1;
    let out = [e0 / sum, e1 / sum];
    let delta = [out[0] - 0.0, out[1] - 1.0];
    let la = [lr * delta[0], lr * delta[1]];
    for j in 0..2 {
        let n = &layers[0].neurons[j];
        for k in 0..2 {
            assert_eq!(n.fix_weights[k], (0.0 + la[j] * x[k]).to_bits());
        }
        assert_eq!(n.fix_bias, (0.0 + la[j]).to_bits());
        assert_eq!(n.delta, 0);
        assert_eq!(n.activation, out[j].to_bits());
    }
    assert_eq!(loss, (-libm::log(out[1])).to_bits());
}

#[test]
fn backpropagation_propagates_through_hidden_layer() {
    let hw = [[0.5, 0.5], [-1.0, -0.5]];
    let hb = [0.0, -0.1];
    let ow = [[0.7, -0.6], [0.2, 0.9]];
    let ob = [0.05, -0.05];
    let mut layers = vec![
        Layer {
            neurons: vec![
                neuron_with(hw[0].to_vec(), hb[0]),
                neuron_with(hw[1].to_vec(), hb[1]),
            ],
        },
        Layer {
            neurons: vec![
                neuron_with(ow[0].to_vec(), ob[0]),
                neuron_with(ow[1].to_vec(), ob[1]),
            ],
        },
    ];
    let x = [0.6, 0.9];
    let lr: f64 = 0.25;
    let loss = backpropagation(&mut layers, &bits_vec(&x), lr.to_bits(), 0);

    // forward
    let lrelu = |v: f64| if v >= 0.0 { v } else { v * -0.04 };
    let dlrelu = |v: f64| if v >= 0.0 { 1.0 } else { -0.04 };
    let hpre = [
        ((0.0 + hw[0][0] * x[0]) + hw[0][1] * x[1]) + hb[0],
        ((0.0 + hw[1][0] * x[0]) + hw[1][1] * x[1]) + hb[1],
    ];
    assert!(hpre[1] < 0.0, "test relies on one negative pre-activation");
    let hact = [lrelu(hpre[0]), lrelu(hpre[1])];
    let opre = [
        ((0.0 + ow[0][0] * hact[0]) + ow[0][1] * hact[1]) + ob[0],
        ((0.0 + ow[1][0] * hact[0]) + ow[1][1] * hact[1]) + ob[1],
    ];
    let e = [libm::exp(opre[0]), libm::exp(opre[1])];
    let sum = (0.0 + e[0]) + e[1];
    let out = [e[0] / sum, e[1] / sum];

    // backward: output layer
    let od = [out[0] - 1.0, out[1] - 0.0];
    let ola = [lr * od[0], lr * od[1]];
    for j in 0..2 {
        let n = &layers[1].neurons[j];
        for k in 0..2 {
            assert_eq!(n.fix_weights[k], (0.0 + ola[j] * hact[k]).to_bits());
        }
        assert_eq!(n.fix_bias, (0.0 + ola[j]).to_bits());
        assert_eq!(n.delta, 0);
    }

    // deltas propagated into the hidden layer, in neuron order
    let hd = [
        (0.0 + od[0] * ow[0][0]) + od[1] * ow[1][0],
        (0.0 + od[0] * ow[0][1]) + od[1] * ow[1][1],
    ];
    for k in 0..2 {
        let la = (lr * hd[k]) * dlrelu(hpre[k]);
        let n = &layers[0].neurons[k];
        for i in 0..2 {
            assert_eq!(n.fix_weights[i], (0.0 + la * x[i]).to_bits());
        }
        assert_eq!(n.fix_bias, (0.0 + la).to_bits());
        assert_eq!(n.delta, 0);
    }
    assert_eq!(loss, (-libm::log(out[0])).to_bits());
}

#[test]
fn apply_fixes_averages_and_clears() {
    let mut neuron = neuron_with(vec![1.0, -2.0], 0.5);
    neuron.fix_weights = vec![(0.4f64).to_bits(), (-0.8f64).to_bits()];
    neuron.fix_bias = (0.2f64).to_bits();
    let mut layers = vec![Layer { neurons: vec![neuron] }];
    apply_neurons_fixes(&mut layers, 4);
    let n = &layers[0].neurons[0];
    assert_eq!(n.weights[0], (1.0f64 - 0.4 / 4.0).to_bits());
    assert_eq!(n.weights[1], (-2.0f64 - (-0.8) / 4.0).to_bits());
    assert_eq!(n.bias, (0.5f64 - 0.2 / 4.0).to_bits());
    assert_eq!(n.fix_weights, vec![0u64, 0u64]);
    assert_eq!(n.fix_bias, 0);
}

#[test]
fn training_and_inference_agree_bit_for_bit() {
    let mut training = vec![Layer::new(6, 4, false), Layer::new(3, 6, true)];
    let lite_bytes: Vec<Vec<u8>> = training.iter().map(encode_layer).collect();
    let mut lite = vec![
        LiteLayer::new(&lite_bytes[0], 6, 4).unwrap(),
        LiteLayer::new(&lite_bytes[1], 3, 6).unwrap(),
    ];
    let mut light = vec![
        LightLayer::new(&lite_bytes[0], 6, 4).unwrap(),
        LightLayer::new(&lite_bytes[1], 3, 6).unwrap(),
    ];
    let image = bits_vec(&[0.1, 0.7, 0.3, 0.9]);
    guess_answer(&mut training, &image);
    lite_network::guess_answer(&mut lite, &image);
    light_network::guess_answer(&mut light, &image);
    let expected = training.last().unwrap().get_neurons_activations();
    assert_eq!(lite.last().unwrap().get_neurons_activations(), expected);
    assert_eq!(light.last().unwrap().get_neurons_activations(), expected);
}

#[test]
fn one_epoch_lowers_training_loss() {
    // a deterministic synthetic 10-example dataset over 784 pixels
    let mut images: Vec<Vec<u64>> = Vec::new();
    let mut labels: Vec<usize> = Vec::new();
    for i in 0..10usize {
        let mut image = Vec::with_capacity(784);
        for k in 0..784usize {
            let byte = ((k * 31 + i * 97) % 256) as u8;
            image.push((byte as f64 / 255.0).to_bits());
        }
        images.push(image);
        labels.push(i);
    }
    let mut layers = vec![Layer::new(4, 784, false), Layer::new(10, 4, true)];
    let loss_of = |layers: &mut Vec<Layer>| -> f64 {
        let mut total = 0.0;
        for i in 0..10 {
            guess_answer(layers, &images[i]);
            let out = layers.last().unwrap().get_neurons_activations();
            total -= libm::log(f64::from_bits(out[labels[i]]));
        }
        total / 10.0
    };
    let before = loss_of(&mut layers);
    for i in 0..10 {
        backpropagation(&mut layers, &images[i], (0.05f64).to_bits(), labels[i]);
    }
    apply_neurons_fixes(&mut layers, 10);
    let after = loss_of(&mut layers);
    assert!(
        after < before,
        "cross-entropy loss did not drop: before {} after {}",
        before,
        after
    );
}

#[test]
fn get_parameters_hands_out_weights_and_bias() {
    let neuron = neuron_with(vec![0.25, -0.5], 1.5);
    let (weights, bias) = neuron.get_parameters();
    assert_eq!(weights, &vec![(0.25f64).to_bits(), (-0.5f64).to_bits()]);
    assert_eq!(bias, (1.5f64).to_bits());
}
