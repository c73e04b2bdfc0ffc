[package]
name = "typervox"
version = "0.1.0"
edition = "2021"
publish = false

[dependencies]
alsa = "*"
anyhow = "1"
async-trait = "0.1"
axum = "0.8"
ct2rs = { version = "*", features = ["hub", "whisper"] }
futures-util = "0.3"
http-body-util = "0.1"
hyper = { version = "1", features = ["client", "http1"] }
hyper-util = { version = "0.1", features = ["http1", "server-auto", "service", "tokio"] }
serde = { version = "1", features = ["derive"] }
serde_json = "1"
thiserror = "2"
tokio = { version = "1", features = ["macros", "net", "rt-multi-thread", "sync", "time"] }
tokio-stream = { version = "0.1", features = ["net"] }
