[package]
name = "rustlab"
version = "0.1.0"
edition = "2021"
publish = false

[dependencies]
anyhow = "=1.0.104"
chrono = { version = "=0.4.45", features = ["serde"] }
clap = { version = "=4.6.7", features = ["derive"] }
colored = "=2.2.0"
comfy-table = "=7.2.2"
csv = "=1.4.0"
dirs = "=5.0.1"
getrandom = "=0.4.3"
polars = { version = "=0.46.0", features = ["lazy", "parquet"] }
reqwest = { version = "=0.12.28", default-features = false, features = ["json", "rustls-tls"] }
serde = { version = "=1.0.229", features = ["derive"] }
serde_json = "=1.0.154"
thiserror = "=1.0.69"
tokio = { version = "=1.54.1", features = ["full"] }
tracing = "=0.1.44"
trpl = "=0.2.0"
uuid = { version = "=1.29.0", features = ["v4"] }
