[package]
name = "fanin-mcp"
version = "0.1.0"
edition = "2021"
publish = false

[dependencies]
clap = { version = "=4.6.7", features = ["derive"] }
libc = "=0.2.191"
process-wrap = { version = "=9.1.1", features = ["tokio1"] }
rmcp = { version = "=1.8.0", features = ["client", "server", "transport-io", "transport-child-process", "elicitation"] }
serde = { version = "=1.0.229", features = ["derive"] }
serde_json = "=1.0.154"
tokio = { version = "=1.54.1", features = ["full"] }
toml = "=0.8.23"
tracing = "=0.1.44"
tracing-subscriber = "=0.3.23"
