[package]
name = "monomana"
version = "0.1.0"
edition = "2021"
publish = false

[dependencies]
anyhow = "*"
clap = { version = "*", features = ["derive"] }
env_logger = "*"
globset = "*"
log = "*"
serde_json = "*"
serde_yaml = "*"
walkdir = "*"
