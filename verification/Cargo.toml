[package]
name = "linescan"
version = "0.1.0"
edition = "2021"
publish = false

[dependencies]
csv = "1"
futures = { version = "0.3", default-features = false, features = ["std"] }
serde = { version = "1", features = ["derive"] }
tauri = { version = "2", default-features = false }
tokio = { version = "1", features = ["fs", "io-util", "rt", "sync"] }
