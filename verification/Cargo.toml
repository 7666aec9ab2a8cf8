[package]
name = "actpub"
version = "0.1.0"
edition = "2021"
publish = false

[dependencies]
aws-lc-rs = "1"
bytes = "1"
chrono = { version = "0.4", default-features = false, features = ["std", "serde"] }
http = "1"
moka = { version = "0.12", features = ["future"] }
reqwest = { version = "0.12", default-features = false, features = ["json"] }
serde = { version = "1", features = ["derive"] }
serde_json = "1"
sfv = "0.9"
tracing = "0.1"
url = { version = "2", features = ["serde"] }
