[package]
name = "knowls"
version = "0.1.0"
edition = "2021"
publish = false

[dependencies]
lsp-types = "0.97"
serde = { version = "1", features = ["derive"] }
serde_json = "1"
tokio = { version = "1", features = ["io-util", "time"] }
toml = "0.8"
clap = { version = "4", features = ["derive"] }
