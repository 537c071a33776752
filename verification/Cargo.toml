[package]
name = "netsblox_dsp"
version = "0.1.0"
edition = "2021"

[dependencies]
num-traits = "0.2"
wasm-bindgen = "0.2"
