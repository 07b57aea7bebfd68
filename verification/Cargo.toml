[package]
name = "ssdpserver"
version = "0.1.0"
edition = "2021"
publish = false

[dependencies]
chrono = "*"
quick-xml = "*"
redis = "*"
rocket = "*"
serde = { version = "*", features = ["derive"] }
yaml-rust = "*"
