[package]
name = "raf"
version = "0.1.0"
edition = "2021"
publish = false

[dependencies]
anyhow = "1"
axum = "0.7"
axum-server = { version = "0.7", features = ["tls-rustls"] }
chrono = "0.4"
dashmap = "6"
local-ip-address = "0.6"
mdns-sd = "*"
mime_guess = "2"
open = "5"
rand = "0.8"
rcgen = "0.13"
rusqlite = { version = "*", features = ["bundled"] }
rust_xlsxwriter = "*"
serde = { version = "1", features = ["derive"] }
serde_json = "1"
serde_urlencoded = "0.7"
tokio = { version = "1", features = ["full"] }
tracing = "0.1"
tracing-subscriber = "0.3"
