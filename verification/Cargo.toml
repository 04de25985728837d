[package]
name = "agent_runtime"
version = "0.1.0"
edition = "2021"
publish = false

[dependencies]
serde_json = "*"
tiktoken-rs = "*"
mime_guess = "*"
serde = { version = "*", features = ["derive"] }
anyhow = "*"
reqwest = { version = "*", default-features = false, features = ["json", "stream"] }
tokio = { version = "*", features = ["rt-multi-thread", "macros", "process", "time", "io-util", "sync", "fs"] }
futures-util = "*"
once_cell = "*"
uuid = { version = "*", features = ["v4"] }
chrono = "*"
qdrant-client = "*"
