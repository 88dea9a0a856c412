[package]
name = "favetto"
version = "0.1.0"
edition = "2021"
publish = false

[dependencies]
anyhow = "1"
axum = "0.8"
chrono = "=0.4.45"
clap = { version = "4", features = ["derive"] }
dirs = "=7.0.0"
futures-util = "0.3"
http = "1"
libc = "0.2"
notify = "=8.2.1"
parking_lot = "0.12"
portable-pty = "=0.9.0"
reqwest = { version = "0.12", default-features = false, features = ["json", "stream"] }
serde = { version = "1", features = ["derive"] }
serde_json = "=1.0.154"
tokio = { version = "1", features = ["full"] }
tokio-tungstenite = "=0.30.0"
tokio-util = { version = "0.7", features = ["codec"] }
tracing = "0.1"
uuid = { version = "=1.29.0", features = ["v4"] }
vt100 = "=0.16.2"
