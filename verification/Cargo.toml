[package]
name = "etle"
version = "0.1.0"
edition = "2021"
publish = false

[dependencies]
blake3 = "=1.8.7"
chacha20poly1305 = "=0.10.1"
rand_core = { version = "=0.6.4", features = ["getrandom"] }
x25519-dalek = "=2.0.1"
serde = { version = "=1.0.229", features = ["derive"] }
bincode = { version = "=2.0.1", features = ["serde"] }
thiserror = "=2.0.21"
tokio = { version = "=1.54.1", features = ["net", "io-util", "time", "rt", "macros", "sync"] }
get_if_addrs = "=0.5.3"
anyhow = "=1.0.104"
clap = { version = "4", features = ["derive"] }
