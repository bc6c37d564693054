[package]
name = "mfmarine"
version = "0.1.0"
edition = "2021"
publish = false

[dependencies]
serde_json = "*"
chrono = "*"
serde = { version = "*", features = ["derive"] }
toml = "*"
anyhow = "*"
log = "*"
flexi_logger = "*"
iso8601-duration = "*"
reqwest = { version = "*", default-features = false, features = ["rustls-tls"] }
tokio = { version = "*", features = ["rt-multi-thread", "macros", "time", "fs", "io-util"] }
