[package]
name = "iced"
version = "0.1.0"
edition = "2021"
publish = false

[dependencies]
resvg = { version = "*", default-features = false }
