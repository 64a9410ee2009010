[package]
name = "sequential_thinking"
version = "0.1.0"
edition = "2021"
publish = false

[dependencies]
anyhow = "=1.0.104"
dashmap = "=6.2.1"
dirs = "=6.0.0"
kodegen_config = { version = "=0.10.11", default-features = false }
kodegen_mcp_schema = { version = "=0.10.14", default-features = false }
log = "0.4"
rmcp = "=0.11.0"
serde = { version = "=1.0.229", features = ["derive"] }
serde_json = "=1.0.154"
termcolor = "=1.4.1"
tokio = { version = "=1.54.1", features = ["fs", "io-util", "macros", "net", "rt", "rt-multi-thread", "sync", "time"] }
uuid = { version = "=1.29.0", features = ["v4"] }
