[package]
name = "cube-envd"
version = "0.1.0"
edition = "2021"
publish = false

[dependencies]
axum = { version = "0.8", features = ["multipart"] }
base64 = "0.22"
bytes = "1"
chrono = "0.4"
inotify = "0.11"
nix = { version = "0.29", features = ["fs", "user"] }
serde = { version = "1", features = ["derive"] }
serde_json = "1"
serde_urlencoded = "0.7"
tokio = { version = "1", features = ["io-util", "macros", "net", "process", "rt-multi-thread", "sync", "time"] }
tokio-stream = "0.1"

[dev-dependencies]
tempfile = "3"
