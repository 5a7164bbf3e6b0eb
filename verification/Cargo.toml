[package]
name = "consensus_core"
version = "0.1.0"
edition = "2021"
rust-version = "1.95"
publish = false

[dependencies]
dusk-bls12_381-sign = "=0.6.0"
dusk-bytes = "=0.1.7"
# dusk-bytes' derive dependency, held to the newest patch within rust-version
derive-hex = "=0.1.2"
anyhow = "=1.0.104"
async-trait = "=0.1.92"
hex = "=0.4.3"
parking_lot = "=0.12.5"
sha3 = "=0.10.9"
tokio = { version = "=1.53.2", features = ["rt", "sync", "macros"] }
tonic = "=0.12.3"
tracing = "=0.1.44"
