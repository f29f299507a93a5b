[package]
name = "audio_tagger"
version = "0.1.0"
edition = "2021"
publish = false

[dependencies]
base64 = "0.22"
chrono = "0.4"
hyper = { version = "0.14", features = ["server", "http1", "tcp", "stream", "runtime"] }
lofty = "0.18"
mime_guess = "2"
once_cell = "1"
parking_lot = "0.12"
percent-encoding = "2"
serde = { version = "1", features = ["derive"] }
serde_json = "1"
tokio = { version = "1", features = ["fs", "io-util", "rt"] }
tokio-util = { version = "0.7", features = ["io"] }
