[package]
name = "pixelfield"
version = "0.1.0"
edition = "2021"
publish = false

[dependencies]
clap = { version = "*", features = ["derive"] }
png = "*"
sdl2 = "*"

[dev-dependencies]
serde_json = "*"
