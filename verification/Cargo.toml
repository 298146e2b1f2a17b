[package]
name = "swivel"
version = "0.1.0"
edition = "2021"
publish = false

[dependencies]
anyhow = "1"
arc-swap = "1"
bytes = "1"
clap = { version = "4", features = ["derive"] }
crossbeam-channel = "0.5"
data-encoding = "2"
ed25519-dalek = "2"
postcard = { version = "1", features = ["alloc"] }
rand = "0.9"
ringbuf = "0.4"
rusqlite = { version = "0.37", features = ["bundled"] }
serde = { version = "1", features = ["derive"] }
thiserror = "2"
tokio = { version = "1", features = ["rt-multi-thread", "macros", "sync", "time", "signal", "io-util"] }
tracing = "0.1"
tracing-subscriber = { version = "0.3", default-features = false, features = ["fmt", "env-filter", "std"] }
