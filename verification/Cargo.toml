[package]
name = "toolscript"
version = "0.1.0"
edition = "2021"
publish = false

[dependencies]
anyhow = "=1.0.104"
axum = "=0.8.9"
clap = { version = "=4.6.7", features = ["derive", "env"] }
futures = "=0.3.34"
mlua = { version = "=0.12.2", features = ["luau", "serialize", "send"] }
openapiv3 = "=2.2.0"
reqwest = { version = "=0.13.5", features = ["json", "query"] }
rmcp = { version = "=3.8.0", features = ["server", "transport-io", "transport-streamable-http-server"] }
serde = { version = "=1.0.229", features = ["derive"] }
serde_json = "=1.0.154"
serde_yaml = "=0.9.34"
tempfile = "=3.27.0"
tokio = { version = "=1.54.1", features = ["full"] }
tokio-util = "=0.7.20"
toml = "=1.1.8"
url = "=2.5.8"
