[package]
name = "objstore"
version = "0.1.0"
edition = "2021"
publish = false

[dependencies]
flate2 = "*"
sha1 = "*"
uuid = { version = "*", features = ["v4"] }
