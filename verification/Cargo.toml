[package]
name = "browser_core"
version = "0.1.0"
edition = "2021"
publish = false

[dependencies]
regex = "=1.13.1"
url = "=2.5.8"
rand = "=0.8.8"
uuid = { version = "=1.29.0", features = ["v4"] }
chrono = "=0.4.45"
serde = { version = "=1.0.229", features = ["derive"] }
serde_json = "=1.0.154"
serde_yaml = "=0.9.34"
tokio = { version = "=1.54.1", features = ["rt-multi-thread", "sync", "time", "macros", "net"] }
reqwest = { version = "=0.12.28", default-features = false, features = ["json", "rustls-tls", "cookies"] }
thiserror = "=1.0.69"
scraper = "=0.20.0"
tokio-tungstenite = "=0.30.0"
futures = "=0.3.34"
base64 = "=0.22.1"
chromiumoxide = "*"
