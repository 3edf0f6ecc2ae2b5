[package]
name = "nano_entropy"
version = "0.1.0"
edition = "2021"
publish = false

[dependencies]
tokio = { version = "1", features = ["full"] }
anyhow = "1"
serde = "1"
serde_derive = "1"
serde_json = "1"
log = "0.4"
fern = "*"
chrono = "0.4"
image-base64 = "*"
