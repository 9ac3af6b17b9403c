[package]
name = "httpie"
version = "0.1.0"
edition = "2021"
publish = false

[dependencies]
anyhow = "1"
clap = { version = "3", features = ["derive"] }
colored = "2"
mime = "0.3"
reqwest = { version = "0.11", default-features = false, features = ["json", "rustls-tls"] }
serde_json = "1"
syntect = { version = "4", default-features = false, features = ["default-fancy"] }
tokio = { version = "1", features = ["full"] }
