[package]
name = "z85_codec"
version = "0.1.0"
edition = "2021"
publish = false

[dependencies]
z85 = "*"
base64 = "*"
serde_json = "*"
wasm-bindgen = "*"
serde-wasm-bindgen = "*"
