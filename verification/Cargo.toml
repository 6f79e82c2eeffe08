[package]
name = "mpd_client"
version = "0.1.0"
edition = "2021"
publish = false

[dependencies]
bytes = "1"
mpd_protocol = { version = "*", features = ["async"] }
tokio = { version = "1", features = ["sync", "rt", "io-util"] }
tracing = "0.1"
