[package]
name = "apophy"
version = "0.1.0"
edition = "2021"
publish = false

[dependencies]
zstd = "0.13"
tiktoken-rs = "*"
serde_json = "1"
petgraph = "*"
serde = { version = "1", features = ["derive"] }
thiserror = "*"
async-trait = "0.1"
tokio = { version = "1", features = ["full"] }
axum = "0.8"
rusqlite = { version = "*", features = ["bundled"] }
chrono = "0.4"
tracing = "0.1"
