[package]
name = "nautilus"
version = "0.1.0"
edition = "2021"
publish = false

[dependencies]
base64 = "0.21"
bytes = "1"
chrono = "0.4"
prost = "0.12"
rand_core = { version = "0.6", features = ["getrandom"] }
rsa = "0.9"
serde = { version = "1", features = ["derive"] }
serde_json = "1"
sha2 = { version = "0.10", features = ["oid"] }
tokio = { version = "1", features = ["full"] }
toml = "0.8"
tracing = "0.1"
tracing-subscriber = { version = "0.3", features = ["fmt", "time"] }
uuid = { version = "1", features = ["v4"] }
zeroize = "1"
