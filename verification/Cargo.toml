[package]
name = "qafhe_proxy"
version = "0.1.0"
edition = "2021"
publish = false

[dependencies]
anyhow = "1"
log = "0.4"
rand = "0.8"
ringbuffer = "0.15"
tokio = { version = "1", default-features = false, features = ["sync"] }
uuid = "1"
