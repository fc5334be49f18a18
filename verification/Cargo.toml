[package]
name = "wb-switch-core"
version = "0.1.0"
edition = "2021"
publish = false

[dependencies]
serde_json = "1"
chrono = "0.4"
uuid = { version = "1", features = ["v4"] }
dirs = "*"
reqwest = { version = "0.12", default-features = false, features = ["json"] }
rusqlite = "*"
tokio = { version = "1", features = ["full"] }
zbus = "5"
