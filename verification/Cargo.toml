[package]
name = "digitnet"
version = "0.1.0"
edition = "2021"
publish = false

[dependencies]
rand = "0.8"
rand_distr = "0.4"
rustc_apfloat = "0.2"
libm = "0.2"
num-traits = "0.2"
bytemuck = "1"
