[package]
name = "broadcast_relay"
version = "0.1.0"
edition = "2021"
publish = false

[dependencies]
anyhow = "1"
ron = "0.8"
rustls = { version = "0.23", default-features = false, features = ["ring", "logging", "std", "tls12"] }
serde = { version = "1", features = ["derive"] }
tokio = { version = "1", features = ["rt-multi-thread", "net", "io-util", "macros", "sync", "fs", "time"] }
tokio-rustls = { version = "0.26", default-features = false, features = ["ring"] }
