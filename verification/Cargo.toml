[package]
name = "backup_verify"
version = "0.1.0"
edition = "2021"
publish = false

[dependencies]
base64 = "0.22"
blake3 = "1"
chrono = "0.4"
ed25519-dalek = "2"
rusqlite = { version = "0.32", features = ["bundled"] }
serde = { version = "1", features = ["derive"] }
serde_json = "1"
uuid = { version = "1", features = ["v4"] }
walkdir = "2"
tokio = { version = "1", features = ["time", "rt"] }
