[package]
name = "class_sync"
version = "0.1.0"
edition = "2021"
publish = false

[dependencies]
serde_json = { version = "1", features = ["raw_value"] }
anyhow = "1"
futures = "0.3"
rayon = "1"
tokio = { version = "1", features = ["rt", "rt-multi-thread", "sync"] }
tokio-stream = "0.1"
tracing = "0.1"
