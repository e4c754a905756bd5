[package]
name = "exchange_api"
version = "0.1.0"
edition = "2021"
publish = false

[dependencies]
fastrand = "=2.5.0"
chrono = { version = "=0.4.45", default-features = false, features = ["clock", "std"] }
serde = { version = "=1.0.229", features = ["derive"] }
serde_json = { version = "=1.0.154", features = ["raw_value"] }
tokio = { version = "=1.54.1", features = ["full"] }
tokio-tungstenite = { version = "=0.30.0", features = ["rustls-tls-webpki-roots"] }
futures-util = { version = "=0.3.34", features = ["sink"] }
reqwest = { version = "=0.12.28", default-features = false, features = ["rustls-tls"] }
async-trait = "=0.1.92"
thiserror = "=2.0.21"
tracing = "=0.1.44"
tokio-stream = { version = "=0.1.19", features = ["sync"] }
tokio-util = "=0.7.20"
http = "=1.5.0"
fred = "10"
