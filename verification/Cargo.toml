[package]
name = "speck"
version = "0.1.0"
edition = "2021"
publish = false

[dependencies]
anyhow = "=1.0.104"
base64 = "=0.22.1"
clap = { version = "=4.6.7", features = ["derive"] }
serde = { version = "=1.0.229", features = ["derive"] }
serde_json = "=1.0.154"
serde_yaml = "=0.9.34"
sha2 = "=0.10.9"
sysinfo = "=0.33.1"
tokio = { version = "=1.54.1", features = ["full"] }
tracing = "=0.1.44"
tracing-subscriber = { version = "=0.3.23", features = ["env-filter", "fmt"] }
axum = "0.8"
hyper = { version = "1", features = ["client", "server", "http1"] }
hyper-util = { version = "0.1", features = ["client-legacy", "server", "server-auto", "tokio", "http1"] }
http-body-util = "0.1"
tower = { version = "0.5", features = ["util"] }
tracing-appender = "0.2"
indicatif = "0.17"
clap_complete = "4"
crossterm = "0.28"
ratatui = "0.29"
anstream = "0.6"
tar = "0.4"
walkdir = "2"
