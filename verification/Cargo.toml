[package]
name = "offline_first_sdk"
version = "0.1.0"
edition = "2021"
publish = false

[dependencies]
chacha20poly1305 = "=0.9.1"
rand_core = { version = "=0.6.4", features = ["getrandom"] }
ed25519-dalek = { version = "=2.2.0", features = ["rand_core"] }
x25519-dalek = { version = "=2.0.1", features = ["static_secrets"] }
sha2 = "=0.10.9"
bincode = "=1.3.3"
prometheus = { version = "=0.13.4", default-features = false }
regex = "=1.13.1"
chrono = { version = "=0.4.45", default-features = false, features = ["clock", "std", "serde"] }
uuid = { version = "=1.29.0", features = ["v4", "serde"] }
serde = { version = "=1.0.229", features = ["derive"] }
serde_json = "=1.0.154"
serde_bytes = "=0.11.19"
tokio = { version = "=1.54.1", features = ["sync", "macros", "rt-multi-thread", "time"] }
anyhow = "=1.0.104"
thiserror = "=1.0.69"
async-trait = "=0.1.92"
futures = "=0.3.34"
rand = "=0.8.8"
tracing = "=0.1.44"
hex = "=0.4.3"
semver = { version = "=1.0.28", features = ["serde"] }
dashmap = "5"
serde_cbor = "0.11"
