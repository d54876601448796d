[package]
name = "ksef-tool"
version = "0.1.0"
edition = "2021"
publish = false

[dependencies]
chrono = "*"
env_logger = "*"
invoice-gen = "*"
log = "*"
reqwest = { version = "*", default-features = false, features = ["blocking", "json", "rustls-tls"] }
rust_decimal = "*"
serde = { version = "*", features = ["derive"] }
serde_json = "*"
thiserror = "*"
