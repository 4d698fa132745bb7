[package]
name = "vpn_daemon"
version = "0.1.0"
edition = "2021"
publish = false

[dependencies]
sha2 = "0.10"
rand = "0.8"
x25519-dalek = "2"
dashmap = "5"
tokio = { version = "1", features = ["sync", "time", "rt", "rt-multi-thread", "macros"] }
thiserror = "1"
tracing = "0.1"
tracing-subscriber = "0.3"
