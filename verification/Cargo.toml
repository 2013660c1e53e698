[package]
name = "andromeda-transfer-direct-mini"
version = "0.1.0"
edition = "2021"
publish = false

[dependencies]
axum = "=0.7.9"
axum-server = { version = "=0.7.3", default-features = false, features = ["tls-rustls-no-provider"] }
clap = { version = "=4.6.7", features = ["derive"] }
futures-util = "=0.3.34"
indicatif = "=0.17.11"
jwalk = "=0.8.1"
rcgen = "=0.13.2"
reqwest = { version = "=0.12.28", default-features = false, features = ["stream", "rustls-tls"] }
tokio = { version = "=1.54.1", features = ["full"] }
tokio-util = { version = "=0.7.20", features = ["io"] }
tracing = "=0.1.44"
tracing-subscriber = "=0.3.23"
