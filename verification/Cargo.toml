[package]
name = "dnsbench"
version = "0.1.0"
edition = "2021"
publish = false

[dependencies]
anyhow = "*"
clap = { version = "*", features = ["derive"] }
crossterm = "*"
csv = "*"
futures-util = "*"
hickory-resolver = "*"
ratatui = "*"
reqwest = { version = "*", default-features = false, features = ["rustls-tls", "stream"] }
serde = { version = "*", features = ["derive"] }
serde_json = "*"
tokio = { version = "1", features = ["sync", "rt-multi-thread", "macros", "time"] }
tui-input = "*"
