[package]
name = "tile"
version = "0.1.0"
edition = "2021"
publish = false

[dependencies]
semver = "1"
serde = { version = "1", features = ["derive"] }
serde_json = "1"
log = "0.4"
directories = "5"
thiserror = "1"
env_logger = { version = "0.11", default-features = false }
