[package]
name = "authgate"
version = "0.1.0"
edition = "2021"
publish = false

[dependencies]
bcrypt = "=0.19.3"
jsonwebtoken = { version = "=11.1.0", features = ["rust_crypto"] }
sanitize-filename = "=0.6.0"
uuid = { version = "=1.27.0", features = ["v4"] }
