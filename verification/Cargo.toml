[package]
name = "vostok"
version = "0.1.0"
edition = "2021"
publish = false

[dependencies]
url = "2"
rustls = { version = "0.23", default-features = false, features = ["ring", "std"] }
