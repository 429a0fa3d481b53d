[package]
name = "hya_server"
version = "0.1.0"
edition = "2021"
publish = false

[dependencies]
anyhow = "1"
axum = "0.7"
futures = "0.3"
serde = { version = "1", features = ["derive"] }
serde_json = "1"
tokio = { version = "1", features = ["sync", "macros", "rt", "net", "time"] }
tokio-stream = { version = "0.1", features = ["sync"] }
tonic = "0.12"
tower = { version = "0.4", features = ["util"] }
