[package]
name = "warp_controller"
version = "0.1.0"
edition = "2021"
publish = false

[dependencies]
base64 = "0.13"
cosmwasm-std = "1"
cw-storage-plus = "1"
json-codec-wasm = "*"
serde = { version = "1", features = ["derive"] }
serde-json-wasm = "*"
thiserror = "1"
