[package]
name = "yoruk"
version = "0.1.0"
edition = "2021"
publish = false

[dependencies]
serialport = { version = "4.6", default-features = false }
tokio = { version = "1.41", features = ["rt-multi-thread", "net", "time", "sync", "io-util", "macros"] }
