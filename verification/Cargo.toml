[package]
name = "lettuce_core"
version = "0.1.0"
edition = "2021"
publish = false

[dependencies]
base64 = "=0.22.1"
blake3 = "=1.8.7"
chrono = { version = "=0.4.45", default-features = false, features = ["std", "clock"] }
hound = "=3.5.1"
image = { version = "=0.25.10", default-features = false, features = ["jpeg", "png", "gif", "webp"] }
reqwest = { version = "0.12", default-features = false, features = ["json", "multipart", "rustls-tls"] }
rusqlite = { version = "=0.41.1", features = ["bundled"] }
serde = { version = "=1.0.229", features = ["derive"] }
serde_json = "=1.0.154"
tokio = { version = "1", features = ["time", "fs"] }
tyme4rs = "=1.5.0"
url = "=2.5.8"
urlencoding = "=2.1.3"
uuid = { version = "=1.29.0", features = ["v4"] }
walkdir = "=2.5.0"
