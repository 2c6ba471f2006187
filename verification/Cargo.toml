[package]
name = "monosend"
version = "0.1.0"
edition = "2021"
publish = false

[dependencies]
axum = "0.8"
color-eyre = "0.6"
futures-util = "0.3"
hex = "0.4"
hostname = "0.4"
hyper-util = { version = "0.1", features = ["server-auto", "service", "tokio"] }
libc = "0.2"
ratatui = { version = "0.29", default-features = false }
rcgen = "0.14"
reqwest = { version = "0.12", default-features = false, features = ["http2", "json", "rustls-tls", "stream"] }
rustls = { version = "0.23", default-features = false, features = ["logging", "ring", "std", "tls12"] }
serde = { version = "1", features = ["derive"] }
serde_json = "1"
sha2 = "0.10"
socket2 = "0.6"
tokio = { version = "1", features = ["full"] }
tokio-rustls = { version = "0.26", default-features = false, features = ["logging", "ring", "tls12"] }
tokio-util = { version = "0.7", features = ["io"] }
uuid = { version = "1", features = ["v4"] }
