[package]
name = "ketabak"
version = "0.1.0"
edition = "2021"
publish = false

[dependencies]
chrono = "=0.4.45"
epub-builder = "=0.8.3"
flate2 = "=1.1.10"
regex = "=1.13.1"
serde = { version = "=1.0.229", features = ["derive"] }
serde_json = "=1.0.154"
tauri = { version = "=2.12.5", default-features = false }
uuid = "=1.29.0"

[dev-dependencies]
zip = { version = "=6.0.0", default-features = false, features = ["deflate"] }
