[package]
name = "routine_core"
version = "0.1.0"
edition = "2021"
publish = false

[dependencies]
hmac = "*"
sha2 = "*"
base64 = "*"
uuid = { version = "*", features = ["v4"] }
actix-web = "*"
actix-web-httpauth = "*"
chrono = "*"
serde = { version = "*", features = ["derive"] }
serde_json = "*"
