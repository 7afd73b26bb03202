[package]
name = "brain"
version = "0.1.0"
edition = "2021"
publish = false

[dependencies]
chrono = "=0.4.45"
clap = { version = "=4.6.7", features = ["derive", "env"] }
fasteval = "=0.2.4"
ollama-rs = "=0.3.6"
regex = "=1.13.1"
reqwest = { version = "=0.12.28", features = ["json", "stream"] }
rmcp = { version = "0.1.5", features = ["client", "transport-sse", "transport-child-process"] }
serde = { version = "=1.0.229", features = ["derive"] }
serde_json = "=1.0.154"
tokio = { version = "=1.54.1", features = ["full"] }
tokio-stream = "=0.1.19"
