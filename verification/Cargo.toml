[package]
name = "carai"
version = "0.1.0"
edition = "2021"
publish = false

[dependencies]
jsonwebtoken = { version = "=11.1.0", default-features = false, features = ["rust_crypto"] }
argon2 = "=0.6.0"
uuid = { version = "=1.27.0", features = ["v4"] }
