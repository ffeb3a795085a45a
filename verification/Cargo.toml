[package]
name = "mpris_bridge"
version = "0.1.0"
edition = "2021"
publish = false

[dependencies]
anyhow = "*"
axum = "*"
bytes = "*"
clap = { version = "*", features = ["derive"] }
env_logger = "*"
futures = "*"
http = "*"
log = "*"
mime = "*"
mime_guess = "*"
mpris = "*"
reqwest = { version = "*", default-features = false, features = ["stream"] }
tokio = { version = "*", features = ["full"] }
tokio-stream = { version = "*", features = ["sync", "time"] }
tokio-util = { version = "*", features = ["io"] }
tower-http = { version = "*", features = ["fs", "set-header"] }

[dev-dependencies]
serde_json = "*"
