[package]
name = "component_iroh"
version = "0.1.0"
edition = "2021"
publish = false

[dependencies]
aes = "=0.8.4"
aes-gcm = "=0.10.3"
anyhow = "=1.0.104"
blake3 = { version = "=1.8.7", features = ["pure"] }
bytes = "=1.12.1"
futures = "=0.3.34"
getrandom = "=0.3.4"
hex = "=0.4.3"
hmac = "=0.12.1"
iroh = { version = "=1.4.1", features = ["unstable-custom-transports"] }
iroh-base = "=1.4.1"
n0-watcher = "=1.0.1"
noq-udp = "=1.4.0"
quinn-proto = { version = "=0.11.19", default-features = false }
reqwest = { version = "=0.12.28", default-features = false }
rustls = { version = "=0.23.46", default-features = false, features = ["std"] }
serde = { version = "=1.0.229", features = ["derive"] }
serde_json = "=1.0.154"
sha2 = "=0.10.9"
tokio = { version = "=1.54.1", features = ["full"] }
tokio-tungstenite = "=0.30.0"
tracing-subscriber = { version = "=0.3.23", features = ["env-filter"] }
