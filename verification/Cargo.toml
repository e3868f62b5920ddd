[package]
name = "tuic_relay"
version = "0.1.0"
edition = "2021"
publish = false

[dependencies]
tokio = { version = "*", features = ["rt-multi-thread", "macros", "net"] }
quinn = "*"
bytes = "*"
log = "*"
env_logger = "*"
