[package]
name = "pty_session"
version = "0.1.0"
edition = "2021"
publish = false

[dependencies]
uuid = { version = "1", features = ["v4"] }
portable-pty = "*"
serde = { version = "1", features = ["derive"] }
serde_json = "1"
hostname = "*"
log = "0.4"
tauri = { version = "2", default-features = false }
