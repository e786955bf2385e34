[package]
name = "bsync"
version = "0.1.0"
edition = "2021"
publish = false

[dependencies]
anyhow = "1"
base64 = "=0.22.1"
blake3 = "=1.8.7"
clap = { version = "4", features = ["derive"] }
clipboard-rs = "=0.3.5"
crossterm = { version = "=0.29.0", features = ["event-stream"] }
dirs = "6"
futures-lite = "2"
iroh-base = { version = "=1.0.3", features = ["key"] }
n0-future = "0.3"
ratatui = { version = "=0.30.2", default-features = false, features = ["crossterm"] }
serde = { version = "=1.0.229", features = ["derive"] }
serde_json = "=1.0.154"
thiserror = "2"
tokio = { version = "1", features = ["rt-multi-thread", "sync", "signal", "macros", "io-util", "time", "fs"] }
