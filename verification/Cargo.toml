[package]
name = "wasm_pvm"
version = "0.1.0"
edition = "2021"
publish = false

[dependencies]
wat = { version = "=1.263.0", default-features = false }
wasmparser = "=0.263.0"
anyhow = "=1.0.104"
clap = { version = "=4.6.7", features = ["derive"] }
serde_json = "=1.0.154"
thiserror = "=2.0.21"
tracing = "=0.1.44"
tracing-subscriber = { version = "=0.3.23", features = ["env-filter"] }
