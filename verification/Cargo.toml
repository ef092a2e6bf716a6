[package]
name = "x940rs"
version = "0.1.1"
edition = "2021"
publish = false

[dependencies]
chrono = "0.4"
rust_decimal = "1"
regex = "1"
quick-xml = "0.37"
serde = { version = "1", features = ["derive"] }
serde_json = "1"
clap = { version = "4", features = ["derive"] }
env_logger = "0.11"
