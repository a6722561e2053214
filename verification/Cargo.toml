[package]
name = "chain_backfill"
version = "0.1.0"
edition = "2021"
publish = false

[dependencies]
alloy-primitives = { version = "*", features = ["k256"] }
k256 = { version = "*", features = ["ecdsa"] }
rand = "*"
tokio = { version = "*", features = ["sync"] }
