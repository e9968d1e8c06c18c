[package]
name = "spacetime_client_sdk"
version = "0.1.0"
edition = "2021"
publish = false

[dependencies]
base64 = "0.21"
crossbeam-channel = "0.5"
futures = "0.3"
log = "0.4"
serde_json = { version = "1", features = ["preserve_order"] }
sha1 = "0.10"
tokio = { version = "1", features = ["sync", "rt", "rt-multi-thread", "macros", "net", "time"] }
tokio-tungstenite = "0.18"
tungstenite = "0.18"
uuid = { version = "1", features = ["v4"] }

[dev-dependencies]
protobuf = "2"
