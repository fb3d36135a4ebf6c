[package]
name = "open_rgb_client"
version = "0.1.0"
edition = "2021"
publish = false

[dependencies]
ringbuffer = "*"
anyhow = "*"
cpu-monitor = "*"
log = "*"
log-panics = "*"
nvml-wrapper = "*"
openrgb = "*"
simplelog = "*"
tokio = { version = "*", features = ["rt-multi-thread", "macros", "time", "sync", "net", "signal"] }
