[package]
name = "table_hash"
version = "0.1.0"
edition = "2021"
publish = false

[dependencies]
serde_json = "=1.0.154"
serde = { version = "=1.0.229", features = ["derive"] }
ipfs-api = { version = "=0.11.0", default-features = false, features = ["with-hyper"] }
hyper = { version = "=0.14.32", features = ["client", "http1", "tcp"] }
mysql = "=28.0.4"
tokio = { version = "=1.54.1", features = ["rt"] }
