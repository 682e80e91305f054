[package]
name = "konnekt_session"
version = "0.1.0"
edition = "2021"
publish = false

[dependencies]
uuid = { version = "1", features = ["v4"] }
serde = { version = "1", features = ["derive"] }
serde_json = "1"
instant = "0.1"
thiserror = "2"
tracing = "0.1"
schemars = "0.8"
tokio = { version = "1", features = ["rt", "macros", "time", "sync"] }
matchbox_socket = "*"
