[package]
name = "nitox"
version = "0.1.0"
edition = "2021"
publish = false

[dependencies]
bytes = "0.4"
futures = "0.1"
log = "0.4"
native-tls = "0.2"
parking_lot = "0.7"
rand = "0.6"
serde_json = "1"
tokio-codec = "0.1"
tokio-executor = "0.1"
tokio-tcp = "0.1"
tokio-tls = "0.2"
url = "1.7"
