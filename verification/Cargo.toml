[package]
name = "rust_diablo"
version = "0.1.0"
edition = "2021"
publish = false

[dependencies]
rand = "0.8"
anyhow = "1"
tracing = "0.1"
tracing-subscriber = { version = "0.3", features = ["env-filter", "fmt"] }
sdl2 = "0.37"
image = { version = "0.25", default-features = false, features = ["png"] }
