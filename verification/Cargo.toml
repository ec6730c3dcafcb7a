[package]
name = "imago"
version = "0.1.0"
edition = "2021"
publish = false

[dependencies]
url = "2"
aes = "0.8"
cbc = { version = "0.1", features = ["alloc"] }
pbkdf2 = "0.12"
hmac = "0.12"
sha1 = "0.10"
serde = { version = "1", features = ["derive"] }
serde_json = "1"
serde_yaml = "0.9"
curl = "0.4"
dirs = "5"
tokio = { version = "1", features = ["rt-multi-thread", "macros", "time"] }
futures = "0.3"
chrono = "0.4"
clap = { version = "4", features = ["derive", "env"] }
keyring = "3"
rusqlite = { version = "0.31", features = ["bundled"] }
tempfile = "3"
secret-service = { version = "4", features = ["rt-tokio-crypto-rust"] }
indicatif = "0.17"
tracing = "0.1"
tracing-subscriber = { version = "0.3", features = ["env-filter"] }
thiserror = "1"
