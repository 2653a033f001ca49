[package]
name = "vismatch_svc"
version = "0.1.0"
edition = "2021"
publish = false

[dependencies]
base64 = "0.21"
image = { version = "0.24", default-features = false, features = ["png", "jpeg"] }
imagehash = "*"
tokio = { version = "1", features = ["rt-multi-thread", "macros", "sync", "time"] }
