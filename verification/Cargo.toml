[package]
name = "velcrux"
version = "0.1.0"
edition = "2021"
publish = false

[dependencies]
anyhow = "=1.0.104"
blake3 = "=1.8.7"
bytes = "=1.12.1"
clap = { version = "=4.6.7", features = ["derive", "env"] }
clap_complete = "=4.6.11"
quinn = "0.10"
rand = "=0.8.8"
ring = "=0.17.14"
rusqlite = { version = "=0.31.0", features = ["bundled"] }
rustls = "0.21"
rustls-pemfile = "1"
serde = { version = "=1.0.229", features = ["derive"] }
serde_json = "=1.0.154"
thiserror = "=1.0.69"
tokio = { version = "=1.54.1", features = ["io-util", "rt-multi-thread", "macros", "sync", "time", "fs", "net"] }
toml = "=0.8.23"
tracing = "=0.1.44"
tracing-subscriber = { version = "=0.3.23", features = ["env-filter", "json", "fmt"] }
zstd = "=0.13.4"
