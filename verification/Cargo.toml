[package]
name = "witness"
version = "0.1.0"
edition = "2021"
publish = false

[dependencies]
akd = { version = "=0.13.0", features = ["serde_serialization"] }
bincode = "=1.3.3"
bytes = "=1.12.1"
ed25519-dalek = "=2.2.0"
tokio = { version = "=1.54.1", features = ["net", "time", "io-util", "rt", "sync"] }
