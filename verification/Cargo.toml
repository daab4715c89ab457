[package]
name = "radiolink"
version = "0.1.0"
edition = "2021"
publish = false

[dependencies]
tokio = { version = "1", features = ["rt-multi-thread", "net", "time", "sync", "io-util", "macros", "process", "signal"] }
mdns-sd = "*"
local-ip-address = "*"

[dev-dependencies]
serde_json = "1"
