[package]
name = "consensus_store"
version = "0.1.0"
edition = "2021"
publish = false

[dependencies]
anyhow = "1"
parking_lot = "0.12"
snarkvm = { version = "*", default-features = false, features = ["console"] }
tokio = { version = "1", features = ["rt", "rt-multi-thread", "sync"] }
