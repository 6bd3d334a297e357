[package]
name = "mcp_tunnel"
version = "0.1.0"
edition = "2021"
publish = false

[dependencies]
url = "=2.5.8"
dirs = "=6.0.0"
serde_json = "=1.0.154"
serde = { version = "=1.0.229", features = ["derive"] }
toml = "=0.8.23"
anyhow = "=1.0.104"
clap = { version = "=4.6.7", features = ["derive"] }
tokio = { version = "=1.54.1", features = ["full"] }
tokio-util = "=0.7.20"
tracing = "=0.1.44"
tracing-subscriber = { version = "=0.3.23", features = ["env-filter"] }
chrono = "=0.4.45"
rmcp = { version = "=1.8.0", features = ["client", "server", "auth", "reqwest", "transport-child-process", "transport-streamable-http-client-reqwest", "transport-streamable-http-server"] }
oauth2 = "=5.0.0"
reqwest = "=0.13.5"
axum = "=0.8.9"
ratatui = "=0.29.0"
crossterm = "=0.28.1"
open = "=5.4.5"
flate2 = "=1.1.10"
tar = "=0.4.46"
opentelemetry = "=0.33.1"
opentelemetry_sdk = "=0.33.1"
opentelemetry-otlp = { version = "=0.33.1", features = ["grpc-tonic"] }
tonic = "=0.14.9"
