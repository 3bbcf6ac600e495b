[package]
name = "moq_boy"
version = "0.1.0"
edition = "2021"
publish = false

[dependencies]
anyhow = "=1.0.104"
bytes = "=1.12.1"
clap = { version = "=4.6.7", features = ["derive", "env"] }
ffmpeg-next = "=9.0.0"
futures = "=0.3.34"
hang = "=0.19.5"
hex = "=0.4.3"
moq-mux = "=0.5.6"
moq-net = "=0.1.18"
qmux = "=0.1.3"
rcgen = { version = "=0.14.10", default-features = false, features = ["crypto", "ring", "pem"] }
rustls = { version = "=0.23.46", default-features = false, features = ["ring", "std", "tls12", "logging"] }
rustls-native-certs = "=0.8.5"
rustls-webpki = { version = "=0.103.16", default-features = false, features = ["ring", "std"] }
serde = { version = "=1.0.229", features = ["derive"] }
serde_json = "=1.0.154"
serde_with = { version = "=3.24.0", features = ["hex"] }
thiserror = "=2.0.21"
time = "=0.3.55"
tokio = { version = "=1.54.1", features = ["full"] }
tokio-rustls = { version = "=0.26.6", default-features = false, features = ["ring", "tls12", "logging"] }
tracing = "=0.1.44"
url = "=2.5.8"
web-transport-noq = "=0.2.1"
web-transport-quinn = "=0.11.12"

[dev-dependencies]
toml = "=1.1.8+spec-1.1.0"
