[package]
name = "hedit"
version = "0.1.0"
edition = "2021"
publish = false

[dependencies]
regex = "1"
url = "2"
reqwest = { version = "0.12", default-features = false, features = ["json", "rustls-tls"] }
tokio = { version = "1", features = ["fs", "io-util", "time", "rt"] }
serde = { version = "1", features = ["derive"] }
serde_json = "1"
