[package]
name = "influxdb3"
version = "0.1.0"
edition = "2021"
publish = false

[dependencies]
arrow = { version = "=60.0.0", default-features = false, features = ["ipc"] }
arrow-flight = "=60.0.0"
futures-util = "=0.3.34"
reqwest = { version = "=0.13.5", default-features = false }
serde = { version = "=1.0.229", features = ["derive"] }
serde_arrow = { version = "=0.15.1", features = ["arrow-60"] }
serde_json = "=1.0.154"
tokio = { version = "=1.54.1", features = ["rt", "sync", "macros"] }
tokio-stream = "=0.1.19"
tonic = { version = "=0.14.6", features = ["tls-ring", "tls-webpki-roots"] }
