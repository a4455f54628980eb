[package]
name = "fastsync"
version = "0.1.0"
edition = "2021"
publish = false

[dependencies]
anyhow = "=1.0.104"
axum = { version = "=0.8.9", features = ["ws"] }
blake3 = "=1.8.7"
ciborium = "=0.2.2"
clap = { version = "=4.6.7", features = ["derive"] }
dashmap = "=6.2.1"
dirs = "=6.0.0"
ed25519-dalek = { version = "=2.2.0", features = ["rand_core"] }
filetime = "=0.2.29"
futures = "=0.3.34"
hostname = "=0.4.2"
parking_lot = "=0.12.5"
quinn = "=0.11.12"
rand = "=0.8.8"
rcgen = "=0.13.2"
rusqlite = { version = "=0.32.1", features = ["bundled"] }
rustls = "=0.23.46"
serde = { version = "=1.0.229", features = ["derive"] }
serde_json = "=1.0.154"
thiserror = "=2.0.21"
tokio = { version = "=1.54.1", features = ["full"] }
tokio-util = "=0.7.20"
tower-http = { version = "=0.6.11", features = ["trace"] }
tracing = "=0.1.44"
tracing-subscriber = { version = "=0.3.23", features = ["env-filter"] }
uuid = { version = "=1.29.0", features = ["v4", "serde"] }
walkdir = "=2.5.0"
windows-sys = { version = "=0.61.2", features = ["Win32_Foundation", "Win32_Storage_FileSystem"] }
