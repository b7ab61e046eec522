[package]
name = "nextcloud"
version = "0.1.0"
edition = "2021"
publish = false

[dependencies]
quick-xml = "0.38"
percent-encoding = "2"
url = "2"
httpdate = "1"
chrono = { version = "0.4", default-features = false, features = ["std", "clock"] }
reqwest = { version = "0.12", default-features = false, features = ["json", "stream", "rustls-tls"] }
tokio = { version = "1", features = ["time"] }
serde = { version = "1", features = ["derive"] }
serde_json = "1"
bytes = "1"
futures-util = "0.3"
thiserror = "2"
