[package]
name = "scr-axum-cranker-router"
version = "0.1.0"
edition = "2021"
publish = false

[dependencies]
async-channel = "2"
async-stream = "0.3"
async-trait = "0.1"
axum = { version = "0.8", features = ["ws"] }
axum-core = "0.5"
axum-server = { version = "0.7", features = ["tls-rustls-no-provider"] }
bytes = "1"
dashmap = "6"
futures = "0.3"
hashlink = "0.10"
lazy_static = "1"
local-ip-address = "0.6"
log = "0.4"
quinn = { version = "0.11", default-features = false, features = ["runtime-tokio", "rustls-ring"] }
serde = { version = "1", features = ["derive"] }
tokio = { version = "1", features = ["macros", "net", "rt-multi-thread", "sync", "time"] }
tokio-rustls = { version = "0.26", default-features = false, features = ["tls12"] }
tokio-stream = "0.1"
tower-http = { version = "0.6", features = ["limit"] }
tower-service = "0.3"
uuid = { version = "1", features = ["v4"] }
