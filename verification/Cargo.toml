[package]
name = "shielded_tx"
version = "0.1.0"
edition = "2021"
publish = false

[dependencies]
decaf377 = { version = "=0.10.1", features = ["r1cs"] }
decaf377-rdsa = "=0.11.0"
poseidon377 = "=1.2.0"
blake2b_simd = "=1.0.5"
chacha20poly1305 = "=0.11.0"
ark-ff = "=0.4.2"
ark-r1cs-std = "=0.4.0"
ark-relations = "=0.4.0"
rand = "=0.8.8"
rand_core = { version = "=0.6.4", features = ["getrandom"] }
rand_chacha = "=0.3.1"
anyhow = "=1.0.104"
clap = { version = "=4.6.7", features = ["derive", "env"] }
tokio = { version = "=1.54.1", features = ["rt-multi-thread", "macros", "sync", "time"] }
tokio-stream = { version = "*", features = ["sync"] }
async-stream = "*"
futures = "=0.3.34"
tracing = "=0.1.44"
tracing-subscriber = { version = "=0.3.23", features = ["env-filter"] }
camino = "=1.2.6"
directories = "=6.0.0"
comfy-table = "=8.0.1"
indicatif = "=0.18.6"
url = "=2.5.8"
hex = "=0.4.3"
once_cell = "=1.21.4"
serde_json = "=1.0.154"
tonic = { version = "*", default-features = false }
tendermint = { version = "*", default-features = false }
ed25519-consensus = "*"
