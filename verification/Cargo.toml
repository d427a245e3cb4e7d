[package]
name = "dwo_agent"
version = "0.1.0"
edition = "2021"
publish = false

[dependencies]
agent-client-protocol = "=5.0.0"
anyhow = "=1.0.104"
async-trait = "=0.1.92"
chrono = "=0.4.45"
clap = { version = "=4.6.7", features = ["derive"] }
crossterm = "=0.29.0"
futures = "=0.3.34"
monty = "=0.0.23"
monty-types = "=0.0.23"
once_cell = "=1.21.4"
ratatui = "=0.30.2"
regex = "=1.13.1"
rmcp = { version = "=3.8.0", features = ["client", "transport-child-process"] }
serde = { version = "=1.0.229", features = ["derive"] }
serde_json = "=1.0.154"
serde_yaml = "=0.9.34"
thiserror = "=2.0.21"
tiktoken-rs = "=0.12.1"
tokio = { version = "=1.54.1", features = ["full"] }
tokio-tungstenite = "=0.30.0"
tokio-util = { version = "=0.7.20", features = ["compat"] }
tracing = "=0.1.44"
uuid = { version = "=1.29.0", features = ["v4"] }
