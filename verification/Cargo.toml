[package]
name = "squaremap_server"
version = "0.1.0"
edition = "2021"
publish = false

[dependencies]
rand = "0.9"
base64 = "0.22"
sha2 = "0.10"
hex = "0.4"
tokio = { version = "1", features = ["full"] }
tokio-util = { version = "0.7", features = ["io"] }
axum = "0.8"
hyper = "1"
hyper-util = { version = "0.1", features = ["tokio"] }
reqwest = { version = "0.12", default-features = false }
tokio-tungstenite = "0.26"
futures-util = { version = "0.3", features = ["sink"] }
async-trait = "0.1"
serde = { version = "1", features = ["derive"] }
serde_json = "1"
prost = "0.13"
tracing = "0.1"
tracing-subscriber = "0.3"
zeroize = "1"
fs2 = "0.4"
cap-std = "3"
libc = "0.2"
