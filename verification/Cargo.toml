[package]
name = "webvh_vectors"
version = "0.1.0"
edition = "2021"
publish = false

[dependencies]
didwebvh-rs = "*"
affinidi-data-integrity = "*"
serde_json_canonicalizer = "*"
base58 = "*"
chrono = "*"
hex = "*"
serde = { version = "1", features = ["derive"] }
serde_json = "1"
serde_yaml = "*"
sha2 = "*"
tokio = { version = "1", features = ["macros", "rt-multi-thread"] }
ahash = "*"
