[package]
name = "print_bridge"
version = "0.1.0"
edition = "2021"
publish = false

[dependencies]
axum = { version = "=0.7.9", features = ["ws"] }
axum-server = { version = "=0.7.3", features = ["tls-rustls"] }
base64 = "=0.22.1"
futures-util = "=0.3.34"
getrandom = "=0.3.4"
printers = "=2.3.0"
reqwest = { version = "=0.12.28", default-features = false, features = ["json", "rustls-tls"] }
rustls = "=0.23.46"
rustls-pemfile = "=2.2.0"
serde = { version = "=1.0.229", features = ["derive"] }
serde_json = { version = "=1.0.154", features = ["raw_value"] }
thiserror = "=2.0.21"
tokio = { version = "=1.54.1", features = ["full"] }
tokio-tungstenite = { version = "=0.26.2", features = ["rustls-tls-webpki-roots"] }
tower-http = { version = "=0.6.11", features = ["cors", "set-header"] }
tracing = "=0.1.44"
tracing-subscriber = { version = "=0.3.23", features = ["env-filter"] }
