[package]
name = "notation"
version = "0.1.0"
edition = "2021"
publish = false

[dependencies]
rustysynth = "*"
serde = { version = "1", features = ["derive"] }
serde_json = "1"
tokio = { version = "1", features = ["time"] }
iced = { version = "*", default-features = false, features = ["canvas", "tokio", "tiny-skia"] }
rodio = "*"
cpal = "*"
