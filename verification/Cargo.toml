[package]
name = "arena_server"
version = "0.1.0"
edition = "2021"
publish = false

[dependencies]
anyhow = "=1.0.104"
axum = { version = "=0.8.9", features = ["ws"] }
bytes = "=1.12.1"
futures-util = "=0.3.34"
rand = "=0.8.8"
rand_pcg = "=0.3.1"
serde = { version = "=1.0.229", features = ["derive"] }
serde_json = "=1.0.154"
skillratings = "=0.29.2"
tokio = { version = "=1.54.1", features = ["full"] }
uuid = { version = "=1.29.0", features = ["v4"] }
wasmtime = "=46.0.3"

[dev-dependencies]
wat = "=1.263.0"
