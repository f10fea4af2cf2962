[package]
name = "acs_smtp_relay"
version = "0.1.0"
edition = "2021"
publish = false

[dependencies]
anyhow = "1"
async-trait = "0.1"
base64 = "=0.22.1"
chrono = "=0.4.45"
hmac = "=0.12.1"
libc = "0.2"
mail-parser = "0.11"
nanoid = "0.4"
reqwest = "0.12"
serde = { version = "1", features = ["derive"] }
serde_json = "=1.0.154"
sha2 = "=0.10.9"
tokio = { version = "1", features = ["full"] }
tracing = "0.1"
tracing-subscriber = { version = "0.3", features = ["env-filter", "json"] }
url = "=2.5.8"
warp = "0.3"
