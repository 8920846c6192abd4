//! Decoding of the binary dataset and model files.
//!
//! Every multi-byte value is big-endian. The image file starts with a
//! 16-byte header whose bytes 4..8 hold the image count; each image is one
//! 784-byte record, transposed from row-major to column-major pixel order and
//! normalized to [0, 1]. The label file starts with an 8-byte header whose
//! bytes 4..8 hold the label count; each label is one byte. A model header
//! holds the layer count and each layer's neuron count as 8-byte integers; a
//! neuron record holds the weights then the bias as 8-byte doubles.

use vstd::prelude::*;

use crate::fbits::{div_bits, f_div, f_from_int, int_bits};

verus! {

/// Why a decode failed: the buffer ends before the value does, or a count
/// does not fit this platform's address width.
#[derive(Clone, Copy, Debug, PartialEq, Eq, Structural)]
pub enum LoadError {
    Truncated,
    Oversized,
}

/// The big-endian 32-bit integer spelled by `data[i..i+4]`.
pub open spec fn be32_at(data: Seq<u8>, i: int) -> u32 {
    ((data[i] as u32) << 24) | ((data[i + 1] as u32) << 16) | ((data[i + 2] as u32) << 8) | (data[i
        + 3] as u32)
}

/// The big-endian 64-bit integer spelled by `data[i..i+8]`.
pub open spec fn be64_at(data: Seq<u8>, i: int) -> u64 {
    ((data[i] as u64) << 56) | ((data[i + 1] as u64) << 48) | ((data[i + 2] as u64) << 40) | ((
    data[i + 3] as u64) << 32) | ((data[i + 4] as u64) << 24) | ((data[i + 5] as u64) << 16) | ((
    data[i + 6] as u64) << 8) | (data[i + 7] as u64)
}

/// Reads the big-endian 32-bit integer at `i`.
fn read_be32(data: &Vec<u8>, i: usize) -> (r: u32)
    requires
        i + 4 <= data@.len(),
    ensures
        r == be32_at(data@, i as int),
{
    proof {
        vstd::std_specs::vec::axiom_spec_len(data);
    }
    ((data[i] as u32) << 24) | ((data[i + 1] as u32) << 16) | ((data[i + 2] as u32) << 8) | (data[i
        + 3] as u32)
}

/// Reads the big-endian 64-bit integer at `i`.
fn read_be64(data: &Vec<u8>, i: usize) -> (r: u64)
    requires
        i + 8 <= data@.len(),
    ensures
        r == be64_at(data@, i as int),
{
    proof {
        vstd::std_specs::vec::axiom_spec_len(data);
    }
    ((data[i] as u64) << 56) | ((data[i + 1] as u64) << 48) | ((data[i + 2] as u64) << 40) | ((
    data[i + 3] as u64) << 32) | ((data[i + 4] as u64) << 24) | ((data[i + 5] as u64) << 16) | ((
    data[i + 6] as u64) << 8) | (data[i + 7] as u64)
}

/// The number of images an image file announces: the big-endian 32-bit count
/// at bytes 4..8 of its 16-byte header. Fails exactly when the header is cut
/// short.
pub fn get_num_of_images(data: &Vec<u8>) -> (r: Result<usize, LoadError>)
    ensures
        data@.len() >= 16 ==> r == Ok::<usize, LoadError>(be32_at(data@, 4) as usize),
        data@.len() < 16 ==> r == Err::<usize, LoadError>(LoadError::Truncated),
{
    if data.len() < 16 {
        Err(LoadError::Truncated)
    } else {
        Ok(read_be32(data, 4) as usize)
    }
}

/// The number of labels a label file announces: the big-endian 32-bit count
/// at bytes 4..8 of its 8-byte header. Fails exactly when the header is cut
/// short.
pub fn get_num_of_labels(data: &Vec<u8>) -> (r: Result<usize, LoadError>)
    ensures
        data@.len() >= 8 ==> r == Ok::<usize, LoadError>(be32_at(data@, 4) as usize),
        data@.len() < 8 ==> r == Err::<usize, LoadError>(LoadError::Truncated),
{
    if data.len() < 8 {
        Err(LoadError::Truncated)
    } else {
        Ok(read_be32(data, 4) as usize)
    }
}

/// The normalized value of one image byte: the byte divided by 255.0.
pub open spec fn pixel_bits(b: u8) -> u64 {
    div_bits(int_bits(b as usize), int_bits(255))
}

/// The value at destination index `i` of a decoded image record: destination
/// index `col * 28 + row` reads the source byte at `row * 28 + col`, so
/// destination `i` (column `i / 28`, row `i % 28`) reads source index
/// `(i % 28) * 28 + i / 28`, normalized to [0, 1].
pub open spec fn transposed_pixel(data: Seq<u8>, start: int, i: int) -> u64 {
    pixel_bits(data[start + (i % 28) * 28 + i / 28])
}

/// The transpose, entry by entry: the source byte at row `row`, column `col`
/// (source index `row * 28 + col`) lands, divided by 255.0, at destination
/// index `col * 28 + row`.
pub proof fn lemma_pixel_transpose(data: Seq<u8>, start: int, col: int, row: int)
    requires
        0 <= col < 28,
        0 <= row < 28,
    ensures
        transposed_pixel(data, start, col * 28 + row) == pixel_bits(
            data[start + row * 28 + col],
        ),
{
    assert((col * 28 + row) / 28 == col && (col * 28 + row) % 28 == row) by (nonlinear_arith)
        requires
            0 <= col < 28,
            0 <= row < 28,
    ;
}

/// Decodes the 784-byte image record at `start`: each byte is normalized to
/// [0, 1] and moved from row-major to column-major pixel order — the
/// transpose that decides which pixel feeds which input neuron. Fails exactly
/// when fewer than 784 bytes remain.
#[verifier::loop_isolation(false)]
pub fn get_next_image(data: &Vec<u8>, start: usize) -> (r: Result<Vec<u64>, LoadError>)
    ensures
        start + 784 <= data@.len() ==> r is Ok,
        start + 784 > data@.len() ==> r == Err::<Vec<u64>, LoadError>(LoadError::Truncated),
        r is Ok ==> r->Ok_0@.len() == 784,
        r is Ok ==> forall|i: int|
            0 <= i < 784 ==> #[trigger] r->Ok_0@[i] == transposed_pixel(data@, start as int, i),
{
    if data.len() < 784 || start > data.len() - 784 {
        return Err(LoadError::Truncated);
    }
    let divisor = f_from_int(255);
    let mut normalized: Vec<u64> = Vec::with_capacity(784);
    let mut col: usize = 0;
    while col < 28
        invariant
            col <= 28,
            normalized@.len() == col * 28,
            forall|i: int|
                0 <= i < col * 28 ==> #[trigger] normalized@[i] == transposed_pixel(
                    data@,
                    start as int,
                    i,
                ),
        decreases 28 - col,
    {
        let mut row: usize = 0;
        while row < 28
            invariant
                col < 28,
                row <= 28,
                normalized@.len() == col * 28 + row,
                forall|i: int|
                    0 <= i < col * 28 + row ==> #[trigger] normalized@[i] == transposed_pixel(
                        data@,
                        start as int,
                        i,
                    ),
            decreases 28 - row,
        {
            let b = data[start + row * 28 + col];
            normalized.push(f_div(f_from_int(b as usize), divisor));
            proof {
                lemma_pixel_transpose(data@, start as int, col as int, row as int);
            }
            row += 1;
        }
        col += 1;
    }
    Ok(normalized)
}

/// The label byte at `start`. Fails exactly when the buffer ends before it.
pub fn get_next_label(data: &Vec<u8>, start: usize) -> (r: Result<u8, LoadError>)
    ensures
        start < data@.len() ==> r == Ok::<u8, LoadError>(data@[start as int]),
        start >= data@.len() ==> r == Err::<u8, LoadError>(LoadError::Truncated),
{
    if start < data.len() {
        Ok(data[start])
    } else {
        Err(LoadError::Truncated)
    }
}

/// Decodes a model header: the layer count as an 8-byte big-endian integer,
/// then that many 8-byte layer sizes. Truncated data fails with `Truncated`;
/// a count beyond this platform's address width fails with `Oversized`.
#[verifier::loop_isolation(false)]
pub fn load_header(data: &Vec<u8>) -> (r: Result<(usize, Vec<usize>), LoadError>)
    ensures
        data@.len() < 8 ==> r == Err::<(usize, Vec<usize>), LoadError>(LoadError::Truncated),
        data@.len() >= 8 && be64_at(data@, 0) > usize::MAX ==> r == Err::<
            (usize, Vec<usize>),
            LoadError,
        >(LoadError::Oversized),
        data@.len() >= 8 && be64_at(data@, 0) <= usize::MAX && 8 + be64_at(data@, 0) * 8
            > data@.len() ==> r == Err::<(usize, Vec<usize>), LoadError>(LoadError::Truncated),
        data@.len() >= 8 && be64_at(data@, 0) <= usize::MAX && 8 + be64_at(data@, 0) * 8
            <= data@.len() ==> r is Ok && r->Ok_0.0 == be64_at(data@, 0) && r->Ok_0.1@.len()
            == be64_at(data@, 0) && (forall|i: int|
            0 <= i < be64_at(data@, 0) ==> r->Ok_0.1@[i] == be64_at(data@, 8 + 8 * i) as usize),
{
    if data.len() < 8 {
        return Err(LoadError::Truncated);
    }
    let num_u64 = read_be64(data, 0);
    if num_u64 > usize::MAX as u64 {
        return Err(LoadError::Oversized);
    }
    let num_of_layer = num_u64 as usize;
    if num_of_layer > (data.len() - 8) / 8 {
        proof {
            assert(8 + be64_at(data@, 0) * 8 > data@.len()) by (nonlinear_arith)
                requires
                    be64_at(data@, 0) == num_of_layer,
                    num_of_layer > (data@.len() - 8) / 8,
                    data@.len() >= 8,
            ;
        }
        return Err(LoadError::Truncated);
    }
    proof {
        assert(8 + be64_at(data@, 0) * 8 <= data@.len()) by (nonlinear_arith)
            requires
                be64_at(data@, 0) == num_of_layer,
                num_of_layer <= (data@.len() - 8) / 8,
                data@.len() >= 8,
        ;
    }
    let mut layer_sizes: Vec<usize> = Vec::with_capacity(num_of_layer);
    let mut i: usize = 0;
    while i < num_of_layer
        invariant
            i <= num_of_layer,
            layer_sizes@.len() == i,
            forall|k: int|
                0 <= k < i ==> layer_sizes@[k] == be64_at(data@, 8 + 8 * k) as usize,
        decreases num_of_layer - i,
    {
        proof {
            assert(8 + 8 * (i as int) + 8 <= data@.len()) by (nonlinear_arith)
                requires
                    0 <= i < num_of_layer,
                    8 + (num_of_layer as int) * 8 <= data@.len(),
            ;
        }
        let size = read_be64(data, 8 + 8 * i);
        layer_sizes.push(size as usize);
        i += 1;
    }
    Ok((num_of_layer, layer_sizes))
}

/// Decodes one neuron record at `start`: `shallower_size` weights then the
/// bias, each an 8-byte big-endian double. Fails exactly when the record
/// would run past the end of the buffer.
#[verifier::loop_isolation(false)]
pub fn load_neuron(data: &Vec<u8>, start: usize, shallower_size: usize) -> (r: Result<
    (Vec<u64>, u64),
    LoadError,
>)
    ensures
        start + 8 * (shallower_size + 1) <= data@.len() ==> r is Ok,
        start + 8 * (shallower_size + 1) > data@.len() ==> r == Err::<
            (Vec<u64>, u64),
            LoadError,
        >(LoadError::Truncated),
        r is Ok ==> r->Ok_0.0@.len() == shallower_size && (forall|i: int|
            0 <= i < shallower_size ==> r->Ok_0.0@[i] == be64_at(data@, start + 8 * i))
            && r->Ok_0.1 == be64_at(data@, start + 8 * shallower_size),
{
    if start > data.len() {
        return Err(LoadError::Truncated);
    }
    let avail = data.len() - start;
    if avail < 8 {
        return Err(LoadError::Truncated);
    }
    if shallower_size > (avail - 8) / 8 {
        proof {
            assert(start + 8 * ((shallower_size as int) + 1) > data@.len()) by (nonlinear_arith)
                requires
                    avail == data@.len() - start,
                    avail >= 8,
                    shallower_size > (avail - 8) / 8,
            ;
        }
        return Err(LoadError::Truncated);
    }
    proof {
        assert(start + 8 * ((shallower_size as int) + 1) <= data@.len()) by (nonlinear_arith)
            requires
                avail == data@.len() - start,
                avail >= 8,
                shallower_size <= (avail - 8) / 8,
        ;
    }
    let mut weights: Vec<u64> = Vec::with_capacity(shallower_size);
    let mut i: usize = 0;
    while i < shallower_size
        invariant
            i <= shallower_size,
            weights@.len() == i,
            forall|k: int| 0 <= k < i ==> weights@[k] == be64_at(data@, start + 8 * k),
        decreases shallower_size - i,
    {
        proof {
            assert(start + 8 * (i as int) + 8 <= data@.len()) by (nonlinear_arith)
                requires
                    0 <= i < shallower_size,
                    start + 8 * ((shallower_size as int) + 1) <= data@.len(),
            ;
        }
        let w = read_be64(data, start + 8 * i);
        weights.push(w);
        i += 1;
    }
    let bias = read_be64(data, start + 8 * shallower_size);
    Ok((weights, bias))
}

} // verus!
