[package]
name = "role_sync"
version = "0.1.0"
edition = "2021"
publish = false

[dependencies]
log = "*"
reqwest = { version = "*", default-features = false }
serde = { version = "*", features = ["derive"] }
serde_json = "*"
