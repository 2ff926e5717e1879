[package]
name = "crap_cms"
version = "0.1.0"
edition = "2021"
publish = false

[dependencies]
ring = "0.17"
aes-gcm = "0.10"
base64 = "0.22"
rand = "0.8"
nanoid = "0.4"
serde = { version = "1", features = ["derive"] }
serde_json = "1"
chrono = "0.4"
tokio = { version = "1", features = ["sync", "rt", "macros"] }
anyhow = "1"
clap = { version = "4", features = ["derive"] }
