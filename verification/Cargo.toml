[package]
name = "tacklecast"
version = "0.1.0"
edition = "2021"
publish = false

[dependencies]
cpal = "0.15"
crossbeam-channel = "0.5"
ffmpeg-next = "7"
libloading = "0.8"
serde = { version = "1", features = ["derive"] }
serde_json = "1"
time = { version = "0.3", features = ["macros", "formatting", "local-offset"] }
tracing = "0.1"
tracing-appender = "0.2"
tracing-subscriber = { version = "0.3", features = ["env-filter", "time", "local-time"] }
