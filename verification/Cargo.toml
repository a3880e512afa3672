[package]
name = "messagehub_core"
version = "0.1.0"
edition = "2021"
publish = false

[dependencies]
async-imap = "=0.10.4"
async-native-tls = "=0.5.0"
async-trait = "=0.1.92"
blake3 = "=1.8.7"
chrono = { version = "=0.4.45", features = ["serde"] }
fastembed = { version = "=5.17.4", default-features = false, features = ["ort-load-dynamic", "hf-hub-rustls-tls"] }
futures = "=0.3.34"
lettre = { version = "=0.11.23", default-features = false, features = ["builder", "hostname", "smtp-transport", "tokio1", "tokio1-native-tls"] }
mail-parser = { version = "=0.11.9", features = ["full_encoding"] }
notify = "=6.1.1"
rand = "=0.8.8"
regex = "=1.13.1"
reqwest = { version = "=0.12.28", features = ["json"] }
rusqlite = { version = "=0.32.1", features = ["bundled-sqlcipher"] }
serde = { version = "=1.0.229", features = ["derive"] }
serde_json = "=1.0.154"
serde_yaml = "=0.9.34"
sqlite-vec = "=0.1.9"
thiserror = "=1.0.69"
tokio = { version = "=1.54.1", features = ["full"] }
tokio-util = { version = "=0.7.20", features = ["compat"] }
toml = "=0.8.23"
tracing = "=0.1.44"
tracing-subscriber = { version = "=0.3.23", features = ["env-filter"] }
uuid = { version = "=1.29.0", features = ["v4", "v5", "serde"] }
