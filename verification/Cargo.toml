[package]
name = "rp_helper"
version = "0.1.0"
edition = "2021"
publish = false

[dependencies]
axum = "0.7"
libloading = "0.8"
once_cell = "1"
serde = { version = "1", features = ["derive"] }
serde_json = "1"
tokio = { version = "1", features = ["rt-multi-thread", "macros", "net", "signal"] }
tower-http = { version = "0.6", features = ["cors"] }
