[package]
name = "zkwasm"
version = "0.1.0"
edition = "2021"
publish = false

[dependencies]
anyhow = "1"
bincode = "1.3"
clap = { version = "3.2", features = ["cargo"] }
env_logger = "*"
halo2_proofs = { version = "*", default-features = false }
log = "0.4"
md5 = "0.7"
num-bigint = "0.4"
parity-wasm = "0.45"
serde = { version = "1", features = ["derive"] }
serde_json = "1"
