[package]
name = "vmc"
version = "0.1.0"
edition = "2021"
publish = false

[dependencies]
cli-clipboard = "*"
env_logger = "0.10"
hostname = "0.3"
log = "0.4"
rand = "0.8"
ring = "0.17"
rmp-serde = "1"
serde = { version = "1", features = ["derive"] }
serde_json = "1"
strum = { version = "0.24", features = ["derive"] }
winrt-notification = "*"
