[package]
name = "chatbridge"
version = "0.1.0"
edition = "2021"
publish = false

[dependencies]
tokio = { version = "=1.53.2", features = ["rt-multi-thread", "macros", "sync", "time"] }
frankenstein = { version = "=0.52.1", features = ["client-ureq"] }
async-process = "=2.5.0"
futures-lite = "=2.6.1"
serde = { version = "=1.0.229", features = ["derive"] }
serde_json = "=1.0.151"
