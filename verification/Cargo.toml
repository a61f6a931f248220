[package]
name = "firebase_rs"
version = "0.1.0"
edition = "2021"
publish = false

[dependencies]
url = "2"
serde_json = "1"
serde = { version = "1", features = ["derive"] }
reqwest = { version = "0.11", default-features = false, features = ["json", "rustls-tls"] }
eventsource-client = "0.11"
eventsource = "*"
futures-util = "0.3"
tokio = { version = "1", features = ["rt", "rt-multi-thread", "macros"] }
