[package]
name = "mock_api"
version = "0.1.0"
edition = "2021"
publish = false

[dependencies]
serde = { version = "=1.0.229", features = ["derive"] }
serde_json = "=1.0.154"
jsonptr = "=0.6.3"
url = "=2.5.8"
form_urlencoded = "=1.2.2"
thiserror = "=1.0.69"
anyhow = "=1.0.104"
tokio = { version = "=1.54.1", features = ["full"] }
axum = "=0.7.9"
axum-server = { version = "=0.7.3", features = ["tls-rustls-no-provider"] }
reqwest = { version = "=0.12.28", default-features = false, features = ["json"] }
bytes = "=1.12.1"
http-body = "=1.1.0"
http-body-util = "=0.1.5"
tower = "=0.5.3"
tower-http = { version = "=0.6.11", features = ["compression-gzip", "trace"] }
tracing = "=0.1.44"
tracing-subscriber = { version = "=0.3.23", features = ["env-filter", "json"] }
clap = { version = "=4.6.7", features = ["derive"] }
ratatui = "=0.29.0"
crossterm = "=0.28.1"
notify = "=6.1.1"
schemars = "=0.8.22"
jks = { version = "=0.3.3", default-features = false, features = ["rand"] }
