[package]
name = "rustymcp"
version = "0.1.0"
edition = "2021"
publish = false

[dependencies]
anyhow = "=1.0.104"
async-stream = "0.3"
async-trait = "=0.1.92"
axum = "=0.8.9"
clap = { version = "4", features = ["derive"] }
dotenvy = "=0.15.7"
futures-core = "0.3"
hex = "=0.4.3"
reqwest = { version = "=0.12.28", default-features = false, features = ["json"] }
rmcp = { version = "=3.8.0", features = ["server", "transport-io"] }
semchunk-rs = "=0.1.1"
serde = { version = "=1.0.229", features = ["derive"] }
serde_json = "=1.0.154"
sha2 = "=0.10.9"
thiserror = "=2.0.21"
tiktoken-rs = "=0.12.1"
time = { version = "=0.3.55", features = ["parsing", "formatting"] }
tokio = { version = "=1.54.1", features = ["macros", "rt-multi-thread", "net", "io-std"] }
tracing = "=0.1.44"
tracing-appender = "0.2"
tracing-subscriber = { version = "=0.3.23", features = ["env-filter"] }
uuid = { version = "=1.29.0", features = ["v4"] }
walkdir = "2"
