[package]
name = "updater"
version = "0.1.0"
edition = "2021"
publish = false

[dependencies]
sha2 = "0.10"
serde = { version = "1", features = ["derive"] }
serde_json = "1"
csv = "1"
tokio = { version = "1", features = ["full"] }
reqwest = { version = "0.12", default-features = false, features = ["rustls-tls"] }
redis = { version = "0.27", features = ["tokio-comp"] }
amiquip = { version = "0.4", default-features = false }
colored = "2"
futures-lite = "2"
