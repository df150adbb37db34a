[package]
name = "eas_listener"
version = "0.1.0"
edition = "2021"
publish = false

[dependencies]
anyhow = "1"
axum = { version = "0.7", features = ["ws"] }
base64 = "0.22"
bytes = "1"
chrono = { version = "0.4", features = ["serde"] }
chrono-tz = "*"
crossbeam-channel = "0.5"
hound = "3"
Inflector = "0.11"
lazy_static = "1"
local-ip-address = "*"
parking_lot = "0.12"
reqwest = { version = "0.12", default-features = false, features = ["multipart"] }
rubato = "*"
sameold = "*"
serde = { version = "1", features = ["derive"] }
serde_json = "1"
symphonia = { version = "0.5", features = ["mp3", "ogg", "vorbis"] }
tempfile = "3"
tokio = { version = "1", features = ["full"] }
tower-http = { version = "0.6", features = ["cors"] }
tracing = "0.1"
tracing-appender = "0.2"
tracing-subscriber = { version = "0.3", features = ["env-filter", "chrono"] }
