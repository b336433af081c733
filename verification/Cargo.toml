[package]
name = "backlot"
version = "0.1.0"
edition = "2021"
publish = false

[dependencies]
rand = "0.8"
blake3 = "1"
serde = { version = "1", features = ["derive"] }
serde_json = "1"
toml = "0.8"
thiserror = "1"
