[package]
name = "flv_relay"
version = "0.1.0"
edition = "2021"
publish = false

[dependencies]
serde_json = "=1.0.151"
tokio = { version = "=1.53.2", features = ["full"] }
hyper = { version = "=0.14.32", features = ["full"] }
bytes = "=1.12.1"
futures = "=0.3.34"
clap = { version = "=4.6.7", features = ["derive"] }
uuid = { version = "=1.27.0", features = ["v4"] }
reqwest = { version = "=0.13.5", default-features = false, features = ["blocking"] }
threadpool = "=1.8.1"
chrono = "=0.4.45"
rml_rtmp = "=0.8.0"
openh264 = "=0.9.8"
scuffle-h264 = "=0.2.2"
tracing = "*"
tracing-subscriber = "*"
