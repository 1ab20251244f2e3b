[package]
name = "exchange"
version = "0.1.0"
edition = "2021"
publish = false

[dependencies]
rust_decimal = "1"
serde = { version = "1", features = ["derive"] }
csv = "1"
anyhow = "1"
thiserror = "1"
log = "0.4"
env_logger = "0.9"
