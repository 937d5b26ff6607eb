[package]
name = "streamcore-rust-sdk"
version = "0.1.7"
edition = "2021"
publish = false

[dependencies]
audiopus = "*"
bytes = "1"
reqwest = { version = "0.12", default-features = false, features = ["json", "rustls-tls"] }
serde = { version = "1", features = ["derive"] }
serde_json = "1"
thiserror = "*"
tokio = { version = "1", features = ["rt", "sync", "time", "macros"] }
tracing = "0.1"
webrtc = "0.17"
