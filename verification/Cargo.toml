[package]
name = "ous"
version = "0.1.0"
edition = "2021"
publish = false

[dependencies]
chrono = "0.4"
csv = "1"
reqwest = { version = "0.12", default-features = false, features = ["json"] }
serde = { version = "1", features = ["derive"] }
serde_json = "1"
sysinfo = "0.30"
tiny_http = "0.12"
tokio = { version = "1", features = ["full"] }
uuid = { version = "1", features = ["v4"] }
