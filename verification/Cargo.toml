[package]
name = "yq"
version = "0.1.0"
edition = "2021"
publish = false

[dependencies]
redis = "*"
serde = { version = "*", features = ["derive"] }
serde_json = "*"
time = "*"
