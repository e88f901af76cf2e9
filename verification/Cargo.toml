[package]
name = "logview_core"
version = "0.1.0"
edition = "2021"
publish = false

[dependencies]
memchr = "*"
encoding_rs = "*"
regex = "*"
serde = { version = "*", features = ["derive"] }
serde_json = "*"
chardet = "*"
