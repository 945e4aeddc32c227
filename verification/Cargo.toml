[package]
name = "syntro_rdp"
version = "0.1.0"
edition = "2021"
publish = false

[dependencies]
base64 = "0.22"
jpeg-encoder = "0.6"
openh264 = "0.6"
serde = { version = "1", features = ["derive"] }
serde_json = "1"
tokio = { version = "1", features = ["rt-multi-thread", "macros", "sync", "time"] }
anyhow = "1"
log = "0.4"
