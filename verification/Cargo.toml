[package]
name = "mcp_router"
version = "0.1.0"
edition = "2021"
publish = false

[dependencies]
anyhow = "1"
arrow-array = "*"
arrow-schema = "*"
async-trait = "0.1"
axum = "*"
clap = { version = "4", features = ["derive"] }
config = "*"
eventsource-stream = "*"
futures = "0.3"
hashbrown = { version = "*", features = ["serde"] }
reqwest = { version = "*", features = ["json", "stream"] }
serde = { version = "1", features = ["derive"] }
serde_json = "1"
tokio = { version = "1", features = ["full"] }
tokio-stream = { version = "*", features = ["sync"] }
tracing = "0.1"
tracing-subscriber = "0.3"
uuid = { version = "1", features = ["v4"] }
