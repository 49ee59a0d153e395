[package]
name = "ainotework"
version = "0.1.0"
edition = "2021"
publish = false

[dependencies]
base64 = "*"
calamine = "*"
dirs = "*"
pdf-extract = "*"
reqwest = { version = "*", default-features = false, features = ["rustls-tls"] }
scraper = "*"
serde = { version = "*", features = ["derive"] }
serde_json = "*"
tokio = { version = "*", features = ["process", "io-util", "time", "sync", "rt-multi-thread", "macros"] }
