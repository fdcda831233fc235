[package]
name = "muta_network"
version = "0.1.0"
edition = "2021"
publish = false

[dependencies]
rand = "=0.7.3"
ckb-vm = "=0.24.15"
hasher = { version = "=0.1.4", features = ["hash-keccak"] }
serde = { version = "=1.0.229", features = ["derive"] }
serde_json = "=1.0.154"
toml = "=0.5.11"
hex = "=0.4.3"
log = "=0.4.35"
