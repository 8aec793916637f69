[package]
name = "wuwa_echo_sight"
version = "0.1.0"
edition = "2021"
publish = false

[dependencies]
chrono = "0.4"
csv = "1"
rusqlite = { version = "0.31", features = ["bundled"] }
serde = { version = "1", features = ["derive"] }
serde_json = "1"
uuid = { version = "1", features = ["v4"] }
zip = { version = "2", default-features = false, features = ["deflate"] }
statrs = "0.17"
rand = "0.8"
rand_chacha = "0.3"
hex = "0.4"
tiny_http = "0.12"
