[package]
name = "pixelflut"
version = "0.1.0"
edition = "2021"
publish = false

[dependencies]
hex_color = "=2.1.0"
tokio = { version = "=1.54.1", features = ["rt-multi-thread", "macros", "net", "io-util", "sync"] }
