[package]
name = "pixel_stream"
version = "0.1.0"
edition = "2021"
publish = false

[dependencies]
getrandom = "0.3"
serde = { version = "1", features = ["derive"] }
serde_json = "1"
image = { version = "0.25", default-features = false, features = ["png"] }
