[package]
name = "yappy"
version = "0.1.0"
edition = "2021"
publish = false

[dependencies]
anyhow = "1"
async-std = "1"
chrono = "0.4"
firebase-rs = "2"
notify-rust = "4"
rand = "0.8"
serde = { version = "1", features = ["derive"] }
serde_json = "1"
surf = { version = "2", default-features = false, features = ["h1-client-rustls"] }
tokio = { version = "1", features = ["rt-multi-thread"] }
zbus = "5"
