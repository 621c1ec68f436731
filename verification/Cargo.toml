[package]
name = "naxone"
version = "0.1.0"
edition = "2021"
publish = false

[dependencies]
serde = { version = "=1.0.229", features = ["derive"] }
serde_json = "=1.0.154"
toml = "=0.8.23"
sha2 = "=0.10.9"
chrono = "=0.4.45"
rcgen = "0.13"
time = "0.3"
zip = { version = "2", default-features = false, features = ["deflate"] }
