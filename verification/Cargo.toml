[package]
name = "sturdy_spoon"
version = "0.1.0"
edition = "2021"
publish = false

[dependencies]
ahash = "=0.8.12"
axum = { version = "=0.6.20", features = ["ws", "headers"] }
base64 = "=0.21.7"
futures-util = "=0.3.34"
http = "=0.2.12"
hyper = "=0.14.32"
jsonwebtoken = "=8.3.0"
nanoid = "=0.4.0"
rand = "=0.8.8"
scc = "=2.4.0"
serde = { version = "=1.0.229", features = ["derive"] }
serde_json = "=1.0.154"
sha1 = "=0.10.7"
tokio = { version = "=1.54.1", features = ["full"] }
tokio-tungstenite = "=0.20.1"
tower-cookies = "=0.9.0"
tower-http = { version = "=0.4.4", features = ["fs"] }
