[package]
name = "fg_operations"
version = "0.1.0"
edition = "2021"
publish = false

[dependencies]
indexmap = "=2.14.2"
serde_json = "=1.0.154"
uuid = { version = "=1.29.0", features = ["v4"] }
serde = { version = "=1.0.229", features = ["derive"] }
http = "=1.5.0"
tokio = { version = "=1.54.1", features = ["sync"] }
tracing = "=0.1.44"
axum = "=0.8.9"
axum-extra = { version = "=0.12.6", features = ["with-rejection"] }
aide = { version = "=0.15.1", features = ["axum", "axum-json", "axum-query"] }
schemars = "=0.9.0"
