[package]
name = "reason"
version = "0.1.0"
edition = "2021"
publish = false

[dependencies]
serde_json = "*"
skema = "*"
serde = { version = "*", features = ["derive"] }
reqwest = { version = "*", default-features = false, features = ["json"] }
tokio = { version = "*", features = ["full"] }
tokio-stream = { version = "*", features = ["io-util"] }
futures-util = "*"
sipper = "*"
thiserror = "*"
url = "*"
