[package]
name = "miku_tunes"
version = "0.1.0"
edition = "2021"
publish = false

[dependencies]
serde = { version = "=1.0.229", features = ["derive"] }
serde_json = "=1.0.154"
urlencoding = "=2.1.3"
base64 = "=0.22.1"
futures-util = "=0.3.34"
reqwest = { version = "=0.12.28", default-features = false, features = ["json", "rustls-tls", "stream"] }
tokio = { version = "=1.54.1", features = ["fs", "time", "rt", "macros", "io-util"] }
