[package]
name = "pingora-waf"
version = "0.1.0"
edition = "2021"
publish = false

[dependencies]
aho-corasick = "1"
regex = "1"
dashmap = "6"
http = "1"
anyhow = "1"
arc-swap = "1"
async-trait = "0.1"
bytes = "1"
chrono = { version = "0.4", features = ["serde"] }
clap = { version = "4", features = ["derive"] }
hickory-resolver = "0.24"
http-body-util = "0.1"
hyper = { version = "1", features = ["http1", "server"] }
hyper-util = { version = "0.1", features = ["tokio"] }
once_cell = "1"
openssl = "0.10"
pingora = { version = "0.6", features = ["openssl", "proxy"] }
pingora-core = { version = "0.6", features = ["openssl"] }
pingora-proxy = { version = "0.6", features = ["openssl"] }
prometheus = "0.13"
serde = { version = "1", features = ["derive"] }
serde_json = "1"
serde_yaml = "0.9"
tokio = { version = "1", features = ["full"] }
tracing = "0.1"
tracing-appender = "0.2"
tracing-subscriber = { version = "0.3", features = ["env-filter", "json"] }
