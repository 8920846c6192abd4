//! The binary codec: headers, neuron records, dataset files, and the
//! bit-for-bit round trip of encoded models.

use digitnet::binary_load::{
    get_next_image, get_next_label, get_num_of_images, get_num_of_labels, load_header,
    load_neuron, LoadError,
};
use digitnet::binary_save::{encode_header, encode_layer};
use digitnet::lite_network::LiteLayer;
use digitnet::network::{Layer, Neuron};

fn neuron_with(weights: Vec<f64>, bias: f64) -> Neuron {
    let n = weights.len();
    Neuron {
        weights: weights.into_iter().map(f64::to_bits).collect(),
        fix_weights: vec![0u64; n],
        bias: bias.to_bits(),
        fix_bias: 0,
        pre_activation: 0,
        activation: 0,
        delta: 0,
    }
}

#[test]
fn header_round_trip() {
    let sizes: Vec<usize> = vec![4, 10];
    let bytes = encode_header(&sizes);
    assert_eq!(bytes.len(), 24);
    let (count, decoded) = load_header(&bytes).unwrap();
    assert_eq!(count, 2);
    assert_eq!(decoded, sizes);
}

#[test]
fn header_layout_is_big_endian() {
    let sizes: Vec<usize> = vec![784];
    let bytes = encode_header(&sizes);
    assert_eq!(&bytes[..8], &[0, 0, 0, 0, 0, 0, 0, 1]);
    assert_eq!(&bytes[8..], &[0, 0, 0, 0, 0, 0, 3, 16]);
}

#[test]
fn header_truncated() {
    assert_eq!(load_header(&vec![0u8; 4]), Err(LoadError::Truncated));
    // announces one layer but holds no size record
    let bytes: Vec<u8> = vec![0, 0, 0, 0, 0, 0, 0, 1];
    assert_eq!(load_header(&bytes), Err(LoadError::Truncated));
}

#[test]
fn neuron_record_round_trip() {
    let layer = Layer {
        neurons: vec![
            neuron_with(vec![0.5, -0.25, 1.5e-300], 0.1),
            neuron_with(vec![-0.3, 0.8, f64::MIN_POSITIVE], -0.2),
        ],
    };
    let bytes = encode_layer(&layer);
    assert_eq!(bytes.len(), 2 * 4 * 8);
    let (w0, b0) = load_neuron(&bytes, 0, 3).unwrap();
    let (w1, b1) = load_neuron(&bytes, 32, 3).unwrap();
    assert_eq!(w0, layer.neurons[0].weights);
    assert_eq!(b0, layer.neurons[0].bias);
    assert_eq!(w1, layer.neurons[1].weights);
    assert_eq!(b1, layer.neurons[1].bias);
}

#[test]
fn neuron_record_truncated() {
    let layer = Layer { neurons: vec![neuron_with(vec![0.5, -0.25], 0.1)] };
    let mut bytes = encode_layer(&layer);
    bytes.pop();
    assert!(matches!(load_neuron(&bytes, 0, 2), Err(LoadError::Truncated)));
}

#[test]
fn encoded_bias_is_the_trained_bias() {
    // the persisted value is the bias field, not the gradient accumulator
    let mut neuron = neuron_with(vec![0.5], 0.75);
    neuron.fix_bias = (123.0f64).to_bits();
    let (_, bias) = neuron.get_parameters();
    assert_eq!(bias, (0.75f64).to_bits());
    let layer = Layer { neurons: vec![neuron] };
    let bytes = encode_layer(&layer);
    let (_, decoded_bias) = load_neuron(&bytes, 0, 1).unwrap();
    assert_eq!(decoded_bias, (0.75f64).to_bits());
}

#[test]
fn lite_layer_decodes_whole_records() {
    let layer = Layer {
        neurons: vec![neuron_with(vec![1.25, -2.5], 0.5), neuron_with(vec![0.75, 3.0], -1.0)],
    };
    let bytes = encode_layer(&layer);
    let lite = LiteLayer::new(&bytes, 2, 2).unwrap();
    assert_eq!(lite.neurons.len(), 2);
    for j in 0..2 {
        assert_eq!(lite.neurons[j].weights, layer.neurons[j].weights);
        assert_eq!(lite.neurons[j].bias, layer.neurons[j].bias);
        assert_eq!(lite.neurons[j].activation, 0);
    }
    let mut cut = bytes.clone();
    cut.truncate(bytes.len() - 1);
    assert!(matches!(LiteLayer::new(&cut, 2, 2), Err(LoadError::Truncated)));
}

#[test]
fn image_count_from_header() {
    let mut data = vec![0u8; 16];
    data[4] = 0;
    data[5] = 0;
    data[6] = 1;
    data[7] = 2;
    assert_eq!(get_num_of_images(&data), Ok(258));
    assert_eq!(get_num_of_images(&vec![0u8; 15]), Err(LoadError::Truncated));
}

#[test]
fn label_count_from_header() {
    let mut data = vec![0u8; 8];
    data[7] = 5;
    assert_eq!(get_num_of_labels(&data), Ok(5));
    assert_eq!(get_num_of_labels(&vec![0u8; 7]), Err(LoadError::Truncated));
}

#[test]
fn label_read() {
    let data: Vec<u8> = vec![9, 4, 7];
    assert_eq!(get_next_label(&data, 1), Ok(4));
    assert_eq!(get_next_label(&data, 3), Err(LoadError::Truncated));
}

#[test]
fn image_transpose() {
    // byte at row r, column c carries r * 28 + c; the decoded vector must
    // hold it, divided by 255, at index c * 28 + r
    let mut data = vec![0u8; 16 + 784];
    for r in 0..28usize {
        for c in 0..28usize {
            data[16 + r * 28 + c] = (r * 28 + c) as u8;
        }
    }
    let image = get_next_image(&data, 16).unwrap();
    assert_eq!(image.len(), 784);
    for r in 0..28usize {
        for c in 0..28usize {
            let expected = ((r * 28 + c) as u8) as f64 / 255.0;
            assert_eq!(f64::from_bits(image[c * 28 + r]), expected);
        }
    }
}

#[test]
fn image_truncated() {
    let data = vec![0u8; 16 + 783];
    assert!(matches!(get_next_image(&data, 16), Err(LoadError::Truncated)));
}
