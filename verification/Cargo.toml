[package]
name = "codex_monitor"
version = "0.1.0"
edition = "2021"
publish = false

[dependencies]
chrono = "=0.4.45"
git2 = { version = "=0.20.4", default-features = false }
serde = { version = "=1.0.229", features = ["derive"] }
serde_json = "=1.0.154"
tauri = { version = "=2.12.5", default-features = false, features = ["wry"] }
tokio = { version = "=1.54.1", features = ["io-util", "process", "rt", "sync", "time"] }
uuid = { version = "=1.29.0", features = ["v4"] }
