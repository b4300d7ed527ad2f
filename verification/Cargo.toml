[package]
name = "zerobeat"
version = "0.1.0"
edition = "2021"
publish = false

[dependencies]
base64 = "0.22"
hex = "0.4"
p256 = "0.13"
rand_core = { version = "0.6", features = ["getrandom"] }
sha2 = "0.10"
url = "2"
serde = { version = "1", features = ["derive"] }
rmp-serde = "1"
serde_json = "1"
thiserror = "2"
tokio = { version = "1", features = ["full"] }
reqwest = { version = "0.12", default-features = false }
rustix = { version = "1", features = ["process"] }
