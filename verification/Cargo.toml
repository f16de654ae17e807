[package]
name = "streame"
version = "0.1.0"
edition = "2021"
publish = false

[dependencies]
anyhow = "1"
async-trait = "0.1"
axum = { version = "0.8", features = ["ws"] }
axum-server = { version = "0.7", features = ["tls-rustls"] }
bytes = "1"
clap = { version = "4", features = ["derive"] }
ctrlc = "3"
futures-util = "0.3"
hostname = "0.4"
local-ip-address = "0.6"
mdns-sd = "*"
opus = "0.3"
qrcode = { version = "0.14", default-features = false }
rand = "*"
rcgen = "0.13"
ring = "0.17"
ringbuf = "0.4"
rosc = "0.11"
rtc = "*"
rustls = { version = "0.23", default-features = false, features = ["ring", "std", "tls12"] }
serde = { version = "1", features = ["derive"] }
serde_json = "1"
tokio = { version = "1", features = ["full"] }
tokio-rustls = { version = "0.26", default-features = false, features = ["ring", "tls12"] }
tokio-tungstenite = "*"
tokio-util = "0.7"
toml = "0.8"
tracing = "0.1"
tracing-subscriber = { version = "0.3", features = ["env-filter"] }
webrtc = "*"
