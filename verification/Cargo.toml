[package]
name = "pake"
version = "0.1.0"
edition = "2021"
publish = false

[dependencies]
url = "2"
tauri = { version = "2", default-features = false, features = ["tray-icon", "image-png"] }
tauri-plugin-window-state = "2"
tokio = { version = "1", features = ["time"] }
serde = { version = "1", features = ["derive"] }
serde_json = "1"
