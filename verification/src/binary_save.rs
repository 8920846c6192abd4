//! Encoding of trained models into the binary persistence format, and the
//! proof that decoding gives back exactly what was encoded.
//!
//! A model is saved as a header — the layer count, then each layer's neuron
//! count, all 8-byte big-endian integers — and one blob per layer holding
//! each neuron's weights followed by its bias, 8-byte big-endian doubles in
//! neuron order. Since a double is carried here by its bit pattern, the
//! round trip below is bit-for-bit.

use vstd::prelude::*;

use crate::binary_load::be64_at;
use crate::network::{neuron_wf, Layer, Neuron};

verus! {

/// The eight bytes of `x`, most significant first.
pub open spec fn u64_be_bytes(x: u64) -> Seq<u8> {
    seq![
        (x >> 56) as u8,
        (x >> 48) as u8,
        (x >> 40) as u8,
        (x >> 32) as u8,
        (x >> 24) as u8,
        (x >> 16) as u8,
        (x >> 8) as u8,
        x as u8,
    ]
}

/// The first `n` values of `ws`, each as eight big-endian bytes, in order.
pub open spec fn values_bytes(ws: Seq<u64>, n: int) -> Seq<u8>
    decreases n,
{
    if n <= 0 {
        Seq::empty()
    } else {
        values_bytes(ws, n - 1) + u64_be_bytes(ws[n - 1])
    }
}

/// One neuron's record: its weights, then its bias.
pub open spec fn neuron_bytes(ws: Seq<u64>, bias: u64) -> Seq<u8> {
    values_bytes(ws, ws.len() as int) + u64_be_bytes(bias)
}

/// The records of the first `n` neurons, in neuron order.
pub open spec fn layer_bytes(ns: Seq<Neuron>, n: int) -> Seq<u8>
    decreases n,
{
    if n <= 0 {
        Seq::empty()
    } else {
        layer_bytes(ns, n - 1) + neuron_bytes(ns[n - 1].weights@, ns[n - 1].bias)
    }
}

/// The model header: the layer count, then each layer's size, as 8-byte
/// big-endian integers.
pub open spec fn header_bytes(sizes: Seq<usize>) -> Seq<u8> {
    u64_be_bytes(sizes.len() as u64) + values_bytes(
        sizes.map_values(|s: usize| s as u64),
        sizes.len() as int,
    )
}

/// Appends the eight big-endian bytes of `x`.
fn push_be64(out: &mut Vec<u8>, x: u64)
    ensures
        final(out)@ == old(out)@ + u64_be_bytes(x),
{
    out.push((x >> 56) as u8);
    out.push(#[verifier::truncate] ((x >> 48) as u8));
    out.push(#[verifier::truncate] ((x >> 40) as u8));
    out.push(#[verifier::truncate] ((x >> 32) as u8));
    out.push(#[verifier::truncate] ((x >> 24) as u8));
    out.push(#[verifier::truncate] ((x >> 16) as u8));
    out.push(#[verifier::truncate] ((x >> 8) as u8));
    out.push(#[verifier::truncate] (x as u8));
    proof {
        assert(out@ =~= old(out)@ + u64_be_bytes(x));
    }
}

/// Encodes the model header for the given layer sizes, shallowest first.
#[verifier::loop_isolation(false)]
pub fn encode_header(layer_sizes: &Vec<usize>) -> (r: Vec<u8>)
    ensures
        r@ == header_bytes(layer_sizes@),
{
    let ghost mapped = layer_sizes@.map_values(|s: usize| s as u64);
    let mut out: Vec<u8> = Vec::new();
    push_be64(&mut out, layer_sizes.len() as u64);
    let mut i: usize = 0;
    while i < layer_sizes.len()
        invariant
            i <= layer_sizes@.len(),
            out@ == u64_be_bytes(layer_sizes@.len() as u64) + values_bytes(mapped, i as int),
        decreases layer_sizes@.len() - i,
    {
        push_be64(&mut out, layer_sizes[i] as u64);
        proof {
            assert(out@ =~= u64_be_bytes(layer_sizes@.len() as u64) + values_bytes(
                mapped,
                i + 1,
            ));
        }
        i += 1;
    }
    out
}

/// Encodes one layer: for each neuron in order, its weights then its bias
/// (the trained bias, as `Neuron::get_parameters` hands it out), every value
/// as eight big-endian bytes.
#[verifier::loop_isolation(false)]
pub fn encode_layer(layer: &Layer) -> (r: Vec<u8>)
    ensures
        r@ == layer_bytes(layer.neurons@, layer.neurons@.len() as int),
{
    let mut out: Vec<u8> = Vec::new();
    let mut j: usize = 0;
    while j < layer.neurons.len()
        invariant
            j <= layer.neurons@.len(),
            out@ == layer_bytes(layer.neurons@, j as int),
        decreases layer.neurons@.len() - j,
    {
        let ghost entry = out@;
        let (weights, bias) = layer.neurons[j].get_parameters();
        let mut i: usize = 0;
        while i < weights.len()
            invariant
                i <= weights@.len(),
                weights@ == layer.neurons@[j as int].weights@,
                out@ == entry + values_bytes(weights@, i as int),
            decreases weights@.len() - i,
        {
            push_be64(&mut out, weights[i]);
            proof {
                assert(out@ =~= entry + values_bytes(weights@, i + 1));
            }
            i += 1;
        }
        push_be64(&mut out, bias);
        proof {
            assert(out@ =~= layer_bytes(layer.neurons@, j + 1));
        }
        j += 1;
    }
    out
}

/// Eight bytes written big-endian read back as the same 64-bit value.
pub proof fn lemma_be64_round_trip(x: u64)
    ensures
        be64_at(u64_be_bytes(x), 0) == x,
{
    assert((((x >> 56) as u8 as u64) << 56) | (((x >> 48) as u8 as u64) << 48) | (((x
        >> 40) as u8 as u64) << 40) | (((x >> 32) as u8 as u64) << 32) | (((x
        >> 24) as u8 as u64) << 24) | (((x >> 16) as u8 as u64) << 16) | (((x
        >> 8) as u8 as u64) << 8) | ((x as u8) as u64) == x) by (bit_vector);
}

/// A 64-bit read inside the left half of a concatenation reads the left half.
proof fn lemma_be64_concat_left(a: Seq<u8>, b: Seq<u8>, o: int)
    requires
        0 <= o,
        o + 8 <= a.len(),
    ensures
        be64_at(a + b, o) == be64_at(a, o),
{
    assert((a + b)[o] == a[o]);
    assert((a + b)[o + 1] == a[o + 1]);
    assert((a + b)[o + 2] == a[o + 2]);
    assert((a + b)[o + 3] == a[o + 3]);
    assert((a + b)[o + 4] == a[o + 4]);
    assert((a + b)[o + 5] == a[o + 5]);
    assert((a + b)[o + 6] == a[o + 6]);
    assert((a + b)[o + 7] == a[o + 7]);
}

/// A 64-bit read inside the right half of a concatenation reads the right
/// half, shifted by the left half's length.
proof fn lemma_be64_concat_right(a: Seq<u8>, b: Seq<u8>, o: int)
    requires
        0 <= o,
        o + 8 <= b.len(),
    ensures
        be64_at(a + b, a.len() + o) == be64_at(b, o),
{
    assert((a + b)[a.len() + o] == b[o]);
    assert((a + b)[a.len() + o + 1] == b[o + 1]);
    assert((a + b)[a.len() + o + 2] == b[o + 2]);
    assert((a + b)[a.len() + o + 3] == b[o + 3]);
    assert((a + b)[a.len() + o + 4] == b[o + 4]);
    assert((a + b)[a.len() + o + 5] == b[o + 5]);
    assert((a + b)[a.len() + o + 6] == b[o + 6]);
    assert((a + b)[a.len() + o + 7] == b[o + 7]);
}

/// `values_bytes` holds eight bytes per value.
pub proof fn lemma_values_bytes_len(ws: Seq<u64>, n: int)
    requires
        0 <= n,
    ensures
        values_bytes(ws, n).len() == 8 * n,
    decreases n,
{
    if n > 0 {
        lemma_values_bytes_len(ws, n - 1);
    }
}

/// The 64-bit value read at offset `8 * i` of `values_bytes` is `ws[i]`.
pub proof fn lemma_values_bytes_entry(ws: Seq<u64>, n: int, i: int)
    requires
        0 <= i < n,
    ensures
        be64_at(values_bytes(ws, n), 8 * i) == ws[i],
    decreases n,
{
    lemma_values_bytes_len(ws, n - 1);
    if i == n - 1 {
        lemma_be64_round_trip(ws[i]);
        lemma_be64_concat_right(values_bytes(ws, n - 1), u64_be_bytes(ws[i]), 0);
    } else {
        lemma_values_bytes_entry(ws, n - 1, i);
        lemma_be64_concat_left(values_bytes(ws, n - 1), u64_be_bytes(ws[n - 1]), 8 * i);
    }
}

/// Law: a neuron record decodes to exactly the weights and bias it was built
/// from — encoding is a direct byte image of the doubles, so the round trip
/// is bit-for-bit. Offset `8 * i` holds weight `i`; offset `8 * ws.len()`
/// holds the bias.
pub proof fn lemma_neuron_round_trip(ws: Seq<u64>, bias: u64, i: int)
    requires
        0 <= i <= ws.len(),
    ensures
        neuron_bytes(ws, bias).len() == 8 * (ws.len() + 1),
        i < ws.len() ==> be64_at(neuron_bytes(ws, bias), 8 * i) == ws[i],
        i == ws.len() ==> be64_at(neuron_bytes(ws, bias), 8 * i) == bias,
{
    lemma_values_bytes_len(ws, ws.len() as int);
    if i < ws.len() {
        lemma_values_bytes_entry(ws, ws.len() as int, i);
        lemma_be64_concat_left(values_bytes(ws, ws.len() as int), u64_be_bytes(bias), 8 * i);
    } else {
        lemma_be64_round_trip(bias);
        lemma_be64_concat_right(values_bytes(ws, ws.len() as int), u64_be_bytes(bias), 0);
    }
}

/// `layer_bytes` holds one record of `8 * (m + 1)` bytes per neuron.
pub proof fn lemma_layer_bytes_len(ns: Seq<Neuron>, m: nat, n: int)
    requires
        0 <= n <= ns.len(),
        forall|j: int| 0 <= j < ns.len() ==> neuron_wf(#[trigger] ns[j], m),
    ensures
        layer_bytes(ns, n).len() == n * ((m + 1) * 8),
    decreases n,
{
    if n > 0 {
        lemma_layer_bytes_len(ns, m, n - 1);
        assert(neuron_wf(ns[n - 1], m));
        lemma_values_bytes_len(ns[n - 1].weights@, ns[n - 1].weights@.len() as int);
        assert(neuron_bytes(ns[n - 1].weights@, ns[n - 1].bias).len() == (m + 1) * 8);
        assert(n * ((m + 1) * 8) == (n - 1) * ((m + 1) * 8) + (m + 1) * 8) by (nonlinear_arith);
    } else {
        assert(n * ((m + 1) * 8) == 0) by (nonlinear_arith)
            requires
                n <= 0,
                0 <= n,
        ;
    }
}

/// Law: a layer blob decodes to exactly the parameters it was built from.
/// In the record of neuron `j` (at byte offset `j * (m + 1) * 8`), offset
/// `8 * i` holds weight `i` for `i < m`, and offset `8 * m` holds the bias.
pub proof fn lemma_layer_round_trip(ns: Seq<Neuron>, m: nat, n: int, j: int, i: int)
    requires
        0 <= j < n <= ns.len(),
        0 <= i <= m,
        forall|k: int| 0 <= k < ns.len() ==> neuron_wf(#[trigger] ns[k], m),
    ensures
        i < m ==> be64_at(layer_bytes(ns, n), j * ((m + 1) * 8) + 8 * i) == ns[j].weights@[i],
        i == m ==> be64_at(layer_bytes(ns, n), j * ((m + 1) * 8) + 8 * i) == ns[j].bias,
    decreases n,
{
    lemma_layer_bytes_len(ns, m, n - 1);
    lemma_neuron_round_trip(ns[j].weights@, ns[j].bias, i);
    if j == n - 1 {
        assert(j * ((m + 1) * 8) + 8 * i == (n - 1) * ((m + 1) * 8) + 8 * i);
        lemma_be64_concat_right(
            layer_bytes(ns, n - 1),
            neuron_bytes(ns[j].weights@, ns[j].bias),
            8 * i,
        );
    } else {
        lemma_layer_round_trip(ns, m, n - 1, j, i);
        assert((j + 1) * ((m + 1) * 8) <= (n - 1) * ((m + 1) * 8)) by (nonlinear_arith)
            requires
                j + 1 <= n - 1,
                m >= 0,
        ;
        assert(j * ((m + 1) * 8) + 8 * i + 8 <= (j + 1) * ((m + 1) * 8)) by (nonlinear_arith)
            requires
                0 <= i <= m,
        ;
        lemma_be64_concat_left(
            layer_bytes(ns, n - 1),
            neuron_bytes(ns[n - 1].weights@, ns[n - 1].bias),
            j * ((m + 1) * 8) + 8 * i,
        );
    }
}

/// Law: the model header decodes to exactly the layer count and sizes it was
/// built from: the count at offset 0, size `i` at offset `8 + 8 * i`.
pub proof fn lemma_header_round_trip(sizes: Seq<usize>, i: int)
    requires
        0 <= i < sizes.len(),
    ensures
        header_bytes(sizes).len() == 8 * (sizes.len() + 1),
        be64_at(header_bytes(sizes), 0) == sizes.len() as u64,
        be64_at(header_bytes(sizes), 8 + 8 * i) == sizes[i] as u64,
{
    let mapped = sizes.map_values(|s: usize| s as u64);
    lemma_values_bytes_len(mapped, sizes.len() as int);
    lemma_be64_round_trip(sizes.len() as u64);
    lemma_be64_concat_left(
        u64_be_bytes(sizes.len() as u64),
        values_bytes(mapped, sizes.len() as int),
        0,
    );
    lemma_values_bytes_entry(mapped, sizes.len() as int, i);
    lemma_be64_concat_right(
        u64_be_bytes(sizes.len() as u64),
        values_bytes(mapped, sizes.len() as int),
        8 * i,
    );
}

} // verus!
