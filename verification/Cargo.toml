[package]
name = "direct_chunked"
version = "0.1.0"
edition = "2021"
publish = false

[dependencies]
sha3 = "0.10"
serde = { version = "1", features = ["derive"] }
serde_json = "1"
postcard = { version = "1", features = ["use-std"] }
tempfile = "3"
memory-stats = "1"
ark-bn254 = "0.5"
ark-serialize = "0.5"
ark-ff = "0.5"
ark-std = "0.5"
