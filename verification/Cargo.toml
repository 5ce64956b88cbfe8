[package]
name = "releasekit"
version = "0.1.0"
edition = "2021"
publish = false

[dependencies]
fast-glob = "*"
serde = { version = "1", features = ["derive"] }
serde_json = "1"
thiserror = "*"
urlencoding = "2"
