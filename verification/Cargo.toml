[package]
name = "vanguard"
version = "0.1.0"
edition = "2021"
publish = false

[dependencies]
base64 = "0.22"
fn-dsa = "*"
rand = "0.8"
chrono = "0.4"
cookie = "0.18"
mime_guess = "2"
hyper = { version = "1", features = ["server", "http1"] }
hyper-util = { version = "0.1", features = ["tokio"] }
http-body-util = "0.1"
bytes = "1"
tokio = { version = "1", features = ["full"] }
maud = "0.26"
serde = { version = "1", features = ["derive"] }
serde_json = "1"
serde_urlencoded = "0.7"
dashmap = "6"
dotenvy = "0.15"
validator = { version = "*", features = ["derive"] }
hyper-tungstenite = "*"
tokio-tungstenite = "*"
futures-util = "0.3"
