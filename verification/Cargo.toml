[package]
name = "invocation_bridge"
version = "0.1.0"
edition = "2021"
publish = false

[dependencies]
argon2 = "*"
chrono = "*"
serde = { version = "*", features = ["derive"] }
serde_json = "*"
uuid = { version = "*", features = ["v4"] }
