[package]
name = "sdupi_core"
version = "0.1.0"
edition = "2021"
publish = false

[dependencies]
chrono = "=0.4.45"
ed25519-dalek = "=1.0.1"
hex = "=0.4.3"
rand = "=0.7.3"
sha2 = "=0.9.9"
uuid = { version = "=1.29.0", features = ["v4"] }
serde = { version = "1", features = ["derive"] }
serde_json = "1"
bincode = "1.3"
sled = "0.34"
tokio = { version = "1", features = ["rt-multi-thread", "macros", "sync", "time"] }
futures = "0.3"
rayon = "1"
crossbeam = "0.8"
clap = "2.34"
tracing = "0.1"
tracing-subscriber = "0.3"
thiserror = "1"
async-trait = "0.1"
libp2p = { version = "0.53", default-features = false, features = ["floodsub", "mdns", "tcp", "tokio", "noise", "yamux", "macros"] }
