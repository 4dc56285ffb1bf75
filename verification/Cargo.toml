[package]
name = "xauusd_fetcher"
version = "0.1.0"
edition = "2021"
publish = false

[dependencies]
serde = { version = "1", features = ["derive"] }
serde_json = "1"
chrono = "0.4"
anyhow = "1"
backoff = { version = "0.4", features = ["tokio"] }
clap = { version = "4", features = ["derive", "env"] }
core_affinity = "0.8"
dotenvy = "0.15"
futures-util = "0.3"
once_cell = "1"
parking_lot = "0.12"
reqwest = "0.12"
ryu = "1"
simd-json = "0.13"
tokio = { version = "1", features = ["rt", "macros", "net", "time", "sync"] }
tokio-tungstenite = { version = "0.21", features = ["native-tls"] }
tracing = "0.1"
tracing-subscriber = { version = "0.3", features = ["env-filter"] }
dirs = "5"
zeroize = "1"
windows-sys = { version = "0.52", features = ["Win32_Media", "Win32_System_Threading"] }
