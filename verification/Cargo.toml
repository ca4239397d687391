[package]
name = "mwha"
version = "0.1.0"
edition = "2021"
publish = false

[dependencies]
rand = "=0.8.8"
serde_json = "=1.0.151"
url = { version = "=2.5.8", features = ["serde"] }
serde = { version = "1", features = ["derive"] }
anyhow = "1"
log = "0.4"
simplelog = "0.12"
clap = { version = "4", features = ["derive"] }
figment = { version = "0.10", features = ["toml"] }
rumqttc = { version = "=0.24.0", features = ["url"] }
serialport = { version = "=4.10.1", default-features = false }
crossbeam-channel = "0.5"
signal-hook = "0.3"
humantime-serde = "1"
rustls-pemfile = "=2.2.0"
rustls-native-certs = "=0.7.3"
