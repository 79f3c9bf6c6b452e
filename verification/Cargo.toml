[package]
name = "cred_offer"
version = "0.1.0"
edition = "2021"
publish = false

[dependencies]
serde_json = "*"
serde = { version = "*", features = ["derive"] }
uuid = { version = "*", features = ["v4"] }
