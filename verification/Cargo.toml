[package]
name = "hass_link"
version = "0.1.0"
edition = "2021"
publish = false

[dependencies]
dotenvy = "0.15"
futures = "0.3"
itertools = "0.13"
log = "0.4"
serde = "1"
serde_json = "1"
serde_with = "3"
tokio = { version = "1", features = ["rt-multi-thread", "net", "time"] }
tokio-tungstenite = "0.24"
