[package]
name = "dictate"
version = "1.0.5"
edition = "2021"
publish = false

[dependencies]
regex = "=1.13.1"
anyhow = "=1.0.104"
clap = { version = "=4.6.7", features = ["derive"] }
dirs = "=5.0.1"
toml = "=0.8.23"
serde = { version = "=1.0.229", features = ["derive"] }
serde_json = "=1.0.154"
tokio = { version = "1", features = ["full"] }
reqwest = { version = "0.12", default-features = false, features = ["json", "multipart", "stream", "rustls-tls"] }
tokio-tungstenite = { version = "0.24", features = ["rustls-tls-webpki-roots"] }
futures = "0.3"
base64 = "0.22"
cpal = "0.15"
signal-hook = "0.3"
signal-hook-tokio = { version = "0.3", features = ["futures-v0_3"] }
dotenvy = "0.15"
inquire = "0.7"
log = "0.4"
env_logger = "0.11"
