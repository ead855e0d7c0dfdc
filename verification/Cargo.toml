[package]
name = "protoviz_web"
version = "0.1.0"
edition = "2021"
publish = false

[dependencies]
protoviz = "*"
hex_color = "*"
chrono = "*"

[dev-dependencies]
serde_json = "*"
