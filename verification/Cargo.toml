[package]
name = "aipass"
version = "0.1.0"
edition = "2021"
publish = false

[dependencies]
base64 = "0.22"
futures-util = "0.3"
rand = "0.8"
reqwest = { version = "0.12", default-features = false, features = ["json", "stream", "rustls-tls"] }
security-framework = "3"
serde = { version = "1", features = ["derive"] }
serde_json = "1"
sha2 = "0.10"
tokio = { version = "1", features = ["io-util", "macros", "net", "rt", "sync", "time"] }
tokio-util = "0.7"
url = "2"
zeroize = { version = "1", features = ["derive"] }
