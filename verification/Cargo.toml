[package]
name = "relay_server"
version = "0.1.0"
edition = "2021"
publish = false

[dependencies]
aes-gcm = "=0.10.3"
bcrypt = "=0.17.1"
env_logger = "=0.11.11"
futures-util = "=0.3.34"
hkdf = "=0.12.4"
log = "=0.4.35"
pyo3 = { version = "=0.23.5", features = ["auto-initialize"] }
rusqlite = { version = "=0.32.1", features = ["bundled"] }
serde_json = "=1.0.154"
sha2 = "=0.10.9"
tokio = { version = "=1.54.1", features = ["full"] }
tokio-tungstenite = "=0.26.2"
uuid = { version = "=1.29.0", features = ["v4"] }
x25519-dalek = { version = "=2.0.1", features = ["static_secrets"] }
