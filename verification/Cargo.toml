[package]
name = "room_timeline"
version = "0.1.0"
edition = "2021"
publish = false

[dependencies]
ruma = { version = "*", features = ["events", "signatures", "state-res", "canonical-json"] }
serde = { version = "1", features = ["derive"] }
serde_json = "1"
lru-cache = "*"
tokio = { version = "1", features = ["sync", "time"] }
tracing = "0.1"
itertools = "*"
futures-util = "0.3"
clap = { version = "4", features = ["derive"] }
axum = "*"
http = "1"
