[package]
name = "spaces_sync"
version = "0.1.0"
edition = "2021"
publish = false

[dependencies]
tokio = { version = "1", features = ["sync", "rt", "macros"] }
tokio-stream = "0.1"
futures-buffered = "*"
serde = { version = "1", features = ["derive"] }
