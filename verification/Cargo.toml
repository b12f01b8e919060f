[package]
name = "codex-agent-indicator"
version = "0.4.0"
edition = "2021"
publish = false

[dependencies]
anyhow = "1"
hidapi = { version = "2.6", default-features = false, features = ["linux-native-basic-udev"] }
libc = "0.2"
serde = { version = "1", features = ["derive"] }
serde_json = "1"
toml = "*"
