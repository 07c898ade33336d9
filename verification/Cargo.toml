[package]
name = "oro_filesystem"
version = "0.1.0"
edition = "2021"
publish = false

[dependencies]
serde_json = { version = "1", features = ["preserve_order"] }
reqwest = { version = "0.12", features = ["blocking"] }
