[package]
name = "edge_api"
version = "0.1.0"
edition = "2021"
publish = false

[dependencies]
serde = { version = "*", features = ["derive"] }
serde_json = "*"
urlencoding = "*"
futures = "0.3"
worker = "*"
reqwest = { version = "*", default-features = false, features = ["json", "multipart"] }
