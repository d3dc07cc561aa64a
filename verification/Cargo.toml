[package]
name = "runebender_web"
version = "0.1.0"
edition = "2021"
publish = false

[dependencies]
norad = "0.19.2"
serde = { version = "1.0.229", features = ["derive"] }
serde_json = "1.0.154"
kurbo = "0.13.1"
