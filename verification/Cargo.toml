[package]
name = "tar_stream"
version = "0.1.0"
edition = "2021"
publish = false

[dependencies]
futures-core = "*"
futures-util = "*"
tokio = { version = "*", default-features = false, features = ["io-util", "fs", "rt"] }
