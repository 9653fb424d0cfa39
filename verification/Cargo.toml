[package]
name = "p64lang"
version = "0.1.0"
edition = "2021"
publish = false

[dependencies]
rustc_apfloat = "0.2"
wasm-bindgen = "0.2"
