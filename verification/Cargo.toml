[package]
name = "dtv"
version = "0.1.0"
edition = "2021"
publish = false

[dependencies]
actix-cors = "0.7"
actix-web = { version = "=4.18.1", default-features = false, features = ["macros"] }
base64 = "=0.22.1"
futures-util = "0.3"
native-tls = "=0.2.18"
reqwest = { version = "=0.12.28", default-features = false, features = ["blocking", "brotli", "default-tls", "gzip", "socks", "stream"] }
serde = { version = "1", features = ["derive"] }
tokio = { version = "1", features = ["full"] }
tokio-socks = "=0.5.3"
tokio-tungstenite = { version = "=0.24.0", features = ["native-tls"] }
url = "=2.5.8"
urlencoding = "=2.1.3"
