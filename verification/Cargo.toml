[package]
name = "loci"
version = "0.1.0"
edition = "2021"
publish = false

[dependencies]
anyhow = "1"
axum = "*"
byteorder = "1"
candle-core = "*"
candle-nn = "*"
candle-transformers = "*"
clap = { version = "4", features = ["derive"] }
colored = "*"
memmap2 = "*"
once_cell = "1"
rand = "*"
rayon = "1"
safetensors = "*"
serde = { version = "1", features = ["derive"] }
serde_json = "1"
thiserror = "*"
tokio = { version = "1", features = ["full"] }
tokio-stream = "*"
tokio-util = "*"
toml = "*"
tower-http = { version = "*", features = ["cors", "trace"] }
tracing = "0.1"
tracing-flame = "*"
tracing-subscriber = { version = "*", features = ["env-filter"] }
uuid = { version = "1", features = ["v4", "serde"] }
