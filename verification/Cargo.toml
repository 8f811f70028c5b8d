[package]
name = "agentbuddy"
version = "0.1.0"
edition = "2021"
publish = false

[dependencies]
serde = { version = "=1.0.229", features = ["derive"] }
serde_json = "=1.0.154"
tauri = { version = "=2.12.5", default-features = false, features = ["wry"] }
tauri-plugin-dialog = { version = "=2.8.4", default-features = false }
