[package]
name = "algo_codec"
version = "0.1.0"
edition = "2021"
publish = false

[dependencies]
data-encoding = "2"
sha2 = "0.10"
serde = { version = "1", features = ["derive"] }
ed25519-dalek = "1"
ed25519 = "1"
