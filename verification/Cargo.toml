[package]
name = "mqtt_relay"
version = "0.1.0"
edition = "2021"

[dependencies]
tokio = { version = "1", features = ["sync", "rt", "rt-multi-thread", "net", "io-util"] }
