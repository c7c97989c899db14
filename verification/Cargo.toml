[package]
name = "pcm_pipeline"
version = "0.1.0"
edition = "2021"
publish = false

[dependencies]
anyhow = "1"
base64 = "0.22"
cpal = "0.15"
crossterm = { version = "0.28", features = ["event-stream"] }
futures = "0.3"
opus = "0.3"
ratatui = "0.29"
rubato = "0.16"
serde_json = "1"
tokio = { version = "1", features = ["full"] }
webrtc = "0.11"
