[package]
name = "zapp"
version = "0.1.0"
edition = "2021"
publish = false

[dependencies]
serde_json = "=1.0.154"
serde = { version = "=1.0.229", features = ["derive"] }
thiserror = "=2.0.21"
nusb = "=0.2.9"
hidapi = { version = "=2.6.7", default-features = false, features = ["linux-native-basic-udev"] }
futures-lite = "=2.6.1"
log = "=0.4.35"
reqwest = { version = "=0.12.28", default-features = false, features = ["blocking", "json", "rustls-tls"] }
clap = { version = "=4.6.7", features = ["derive"] }
anyhow = "=1.0.104"
env_logger = "=0.11.11"
indicatif = "=0.17.11"
