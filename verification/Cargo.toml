[package]
name = "elasticsearch-core-mcp-server"
version = "0.1.0"
edition = "2021"
publish = false

[dependencies]
anyhow = "=1.0.104"
axum = "=0.8.9"
clap = { version = "=4.6.7", features = ["derive", "env"] }
dotenvy = "=0.15.7"
elasticsearch = { version = "9.0.0-alpha.1", default-features = false, features = ["rustls-tls"] }
hyper-util = { version = "=0.1.21", features = ["server-auto", "service", "tokio"] }
indexmap = { version = "=2.14.2", features = ["serde"] }
is-container = "=0.1.2"
rmcp = { version = "=0.2.1", features = ["server", "macros", "transport-io", "transport-sse-server", "transport-streamable-http-server"] }
rmcp-macros = "=0.2.1"
schemars = "=0.8.22"
serde = { version = "=1.0.229", features = ["derive"] }
serde-aux = "=4.7.0"
serde_json = "=1.0.154"
serde_json5 = "=0.2.1"
thiserror = "=2.0.21"
tokio = { version = "=1.54.1", features = ["full"] }
tokio-util = "=0.7.20"
tower = { version = "=0.5.3", features = ["util"] }
tracing = "=0.1.44"
tracing-subscriber = { version = "=0.3.23", features = ["env-filter"] }
