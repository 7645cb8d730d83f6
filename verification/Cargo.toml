[package]
name = "mya"
version = "0.1.0"
edition = "2021"
publish = false

[dependencies]
clap = "2.33"
colored = "2"
env_logger = "0.8"
log = "0.4"
regex = "1"
serde = { version = "1", features = ["derive"] }
serde_yaml = "0.8"
shellexpand = "2"
