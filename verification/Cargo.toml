[package]
name = "trino_rust_client"
version = "0.1.0"
edition = "2021"
publish = false

[dependencies]
serde = { version = "*", features = ["derive"] }
serde_json = "*"
base64 = "*"
zstd = "*"
lz4 = "*"
flate2 = "*"
reqwest = { version = "*", default-features = false, features = ["json", "rustls-tls"] }
tokio = { version = "*", features = ["sync", "rt", "time"] }
futures = "*"
