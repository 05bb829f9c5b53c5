[package]
name = "candle_wgpu"
version = "0.1.0"
edition = "2021"
publish = false

[dependencies]
float8 = "*"
half = "*"
pollster = "*"
serde = { version = "1", features = ["derive"] }
wgpu = "*"

[dev-dependencies]
rand = "0.9"
