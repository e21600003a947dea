[package]
name = "dlink_wm"
version = "0.1.0"
edition = "2021"

[dependencies]
anyhow = "1"
log = "0.4"
notify = "6.1"
serde = { version = "1", features = ["derive"] }
serde_json = "1"
toml = "0.8"
wasmtime = "17.0"
wasmtime-wasi = "17.0"
