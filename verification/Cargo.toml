[package]
name = "vmix_plugin"
version = "0.1.0"
edition = "2021"
publish = false

[dependencies]
serde = { version = "1", features = ["derive"] }
serde_json = "1"
base64 = "0.22"
urlencoding = "2"
thiserror = "*"
tokio = { version = "1", features = ["full"] }
tracing = "0.1"
anyhow = "1"
vmix-rs = "*"
streamdeck-plugin = "*"
