[package]
name = "aptosdb"
version = "0.1.0"
edition = "2021"
publish = false

[dependencies]
anyhow = "1"
itertools = "0.10"
once_cell = "1"
serde = { version = "1", features = ["derive"] }
tiny-keccak = { version = "2.0.2", features = ["sha3"] }
