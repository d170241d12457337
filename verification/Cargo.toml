[package]
name = "rust_p2p_chat"
version = "0.1.0"
edition = "2021"
publish = false

[dependencies]
aes-gcm = "=0.10.3"
base64 = "=0.21.7"
rand = "=0.8.8"
rsa = { version = "=0.9.10", features = ["sha2"] }
sha2 = { version = "=0.10.9", features = ["oid"] }
serde = { version = "1", features = ["derive"] }
toml = "0.8"
directories = "5"
clap = { version = "4", features = ["derive"] }
tokio = { version = "1", features = ["full"] }
futures = "0.3"
tracing = "0.1"
tracing-subscriber = { version = "0.3", features = ["env-filter"] }
tokio-rustls = "0.24"
rcgen = "0.11"

[dev-dependencies]
bincode = "=1.3.3"
