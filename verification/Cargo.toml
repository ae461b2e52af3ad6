[package]
name = "ambient_context"
version = "0.1.0"
edition = "2021"
publish = false

[dependencies]
anyhow = "=1.0.104"
auto-launch = "0.5"
cpal = "0.15"
futures = "=0.3.34"
global-hotkey = "0.5"
image = { version = "=0.25.10", default-features = false, features = ["png"] }
lazy_static = "=1.5.1"
serde = { version = "=1.0.229", features = ["derive"] }
serde_json = "=1.0.154"
single-instance = "0.3"
tempfile = "=3.27.0"
tokio = { version = "=1.54.1", features = ["rt-multi-thread", "sync", "time"] }
whisper-rs = "0.11"
