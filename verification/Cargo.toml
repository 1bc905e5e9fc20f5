[package]
name = "twist"
version = "0.1.0"
edition = "2021"
publish = false

[dependencies]
bytes = "0.4"
vatfluid = "*"
sha1 = "*"
base64 = "*"
getrandom = "*"
uuid = { version = "*", features = ["v4"] }
tokio-io = "0.1"
