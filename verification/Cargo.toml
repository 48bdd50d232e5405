[package]
name = "remote_storage"
version = "0.1.0"
edition = "2021"
publish = false

[dependencies]
base64 = "0.22"
shell-escape = "0.1"
image = "0.25"
ssh2 = "0.9"
serde = { version = "1", features = ["derive"] }
