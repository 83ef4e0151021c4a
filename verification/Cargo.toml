[package]
name = "cephalopod"
version = "0.1.0"
edition = "2021"
publish = false

[dependencies]
csv = "*"
log = "*"
pretty_env_logger = "*"
rust_decimal = "*"
serde = { version = "*", features = ["derive"] }
