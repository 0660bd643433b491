[package]
name = "cloudnexus_core"
version = "0.1.0"
edition = "2021"
publish = false

[dependencies]
aes-gcm = "0.10"
pbkdf2 = "0.12"
sha2 = "0.10"
rand = "0.8"
chrono = { version = "0.4", default-features = false, features = ["clock", "std"] }
libc = "0.2"
serde = { version = "1", features = ["derive"] }
serde_json = "1"
