[package]
name = "minicloud"
version = "0.1.0"
edition = "2021"
publish = false

[dependencies]
askama = "*"
axum = { version = "*", features = ["multipart"] }
clap = { version = "*", features = ["derive"] }
fltk = "*"
local-ip-address = "*"
mime_guess = "*"
serde = { version = "*", features = ["derive"] }
tokio = { version = "*", features = ["full"] }
tokio-util = { version = "*", features = ["io"] }
tower-http = { version = "*", features = ["trace", "limit"] }
tracing = "*"
tracing-subscriber = { version = "*", features = ["env-filter"] }
