[package]
name = "warpinator_lib"
version = "0.1.0"
edition = "2021"
publish = false

[dependencies]
async-walkdir = "2"
base64 = "0.22"
chrono = "0.4"
mdns-sd = "*"
mime_guess = "2"
serde = { version = "1", features = ["derive"] }
thiserror = "2"
tokio = { version = "1", features = ["fs", "io-util", "macros", "rt", "sync", "time"] }
tokio-stream = "0.1"
tokio-util = "0.7"
tonic = { version = "0.14", features = ["tls-ring"] }
tracing = "0.1"
uuid = { version = "1", features = ["v4"] }
