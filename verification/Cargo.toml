[package]
name = "vela_core"
version = "0.1.0"
edition = "2021"
publish = false

[dependencies]
wasmparser = "*"
wasm-encoder = { version = "*", features = ["wasmparser"] }
clap = { version = "4", features = ["derive"] }
thiserror = "*"
