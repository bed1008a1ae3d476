[package]
name = "imagequick"
version = "0.1.0"
edition = "2021"
publish = false

[dependencies]
mozjpeg = { version = "0.10", default-features = false }
rgb = "0.8"
tokio = { version = "1", default-features = false, features = ["rt"] }
