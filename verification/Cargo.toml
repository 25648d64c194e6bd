[package]
name = "nightfall"
version = "0.1.0"
edition = "2021"
publish = false

[dependencies]
uuid = { version = "0.8", features = ["v4"] }
tokio = { version = "1", features = ["process", "rt", "sync", "time", "fs", "io-util"] }
slog = "2"
