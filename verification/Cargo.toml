[package]
name = "scrcpy_launcher"
version = "0.1.0"
edition = "2021"
publish = false

[dependencies]
anyhow = "1"
indexmap = { version = "2", features = ["serde"] }
serde = { version = "1", features = ["derive"] }
serde_json = "1"
tauri = { version = "2", default-features = false, features = ["tray-icon"] }
tokio = { version = "1", features = ["fs", "io-util", "net", "time", "rt"] }
