[package]
name = "daydream_memory"
version = "0.1.0"
edition = "2021"
publish = false

[dependencies]
anyhow = "1"
async-trait = "0.1"
chrono = "0.4"
engramai = "*"
serde_json = "1"
tokio = { version = "1", features = ["rt", "sync"] }
tracing = "0.1"
