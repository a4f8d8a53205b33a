[package]
name = "routescope"
version = "0.1.0"
edition = "2021"
publish = false

[dependencies]
argon2 = { version = "0.5", features = ["std"] }
askama = "*"
axum = "0.8"
aya = "0.13"
base64 = "0.22"
conntrack = "*"
hickory-proto = "*"
libc = "0.2"
rusqlite = { version = "*", features = ["bundled"] }
serde = { version = "1", features = ["derive"] }
serde_json = "1"
sha2 = "0.10"
tokio = { version = "1", features = ["full"] }
