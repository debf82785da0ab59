[package]
name = "web_preview"
version = "0.1.0"
edition = "2021"
publish = false

[dependencies]
axum = "0.6"
http-body = "0.4"
tiny_http = "0.12"
tokio = { version = "1", features = ["rt-multi-thread"] }
