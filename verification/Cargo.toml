[package]
name = "metasearch"
version = "0.1.0"
edition = "2021"
publish = false

[dependencies]
eyre = "*"
futures = "*"
reqwest = { version = "*", default-features = false }
tokio = { version = "*", features = ["sync"] }
url = "*"
