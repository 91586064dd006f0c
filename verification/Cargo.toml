[package]
name = "agent_browser_daemon"
version = "0.1.0"
edition = "2021"
publish = false

[dependencies]
base64 = "0.22"
dirs = "*"
futures-util = "0.3"
libc = "0.2"
serde_json = "1"
tempfile = "3"
tokio = { version = "1", features = ["full"] }
tokio-tungstenite = "*"
