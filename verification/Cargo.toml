[package]
name = "kairos_rs"
version = "0.2.7"
edition = "2021"
publish = false

[dependencies]
rand = "=0.8.8"
regex = "=1.13.1"
actix-web = { version = "=4.18.1", default-features = false, features = ["macros", "compress-gzip"] }
hickory-proto = "=0.24.4"
actix-ws = "=0.3.1"
actix-governor = "=0.5.0"
tokio = { version = "=1.54.1", features = ["full"] }
reqwest = { version = "=0.12.28", default-features = false, features = ["json"] }
serde = { version = "=1.0.229", features = ["derive"] }
serde_json = "=1.0.154"
chrono = { version = "=0.4.45", features = ["serde"] }
log = "=0.4.35"
hex = "=0.4.3"
base64 = "=0.22.1"
futures = "=0.3.34"
futures-util = "=0.3.34"
tokio-tungstenite = "=0.21.0"
thiserror = "=1.0.69"
url = "=2.5.8"
rig-core = { version = "=0.32.0", default-features = false }
