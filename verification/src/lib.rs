//! A fully connected feed-forward neural network for digit classification:
//! forward inference with softmax output, backpropagation with mini-batch
//! gradient accumulation, and a binary persistence format for trained models.
//!
//! Every scalar of the network is an IEEE 754 double carried by its 64-bit
//! pattern (`u64`). The arithmetic on those patterns is delegated to outside
//! crates behind the trusted items of [`fbits`]; everything built on top of
//! it — the per-neuron activation, the layer chaining, the gradient
//! bookkeeping and the codec — is verified.

pub mod binary_load;
pub mod binary_save;
pub mod fbits;
pub mod light_network;
pub mod lite_network;
pub mod network;
