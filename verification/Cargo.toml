[package]
name = "gemini_grs"
version = "0.1.0"
edition = "2021"
publish = false

[dependencies]
url = "*"
openssl = "*"
anyhow = "*"
log = "*"
env_logger = "*"
