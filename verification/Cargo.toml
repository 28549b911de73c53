[package]
name = "password_locker"
version = "0.1.0"
edition = "2021"
publish = false

[dependencies]
aes = "0.8.4"
base64 = "0.22"
cbc = "0.1.2"
cipher = { version = "0.4.4", features = ["alloc", "block-padding"] }
rand = "0.8.5"
