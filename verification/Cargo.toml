[package]
name = "spotifyql"
version = "0.1.0"
edition = "2021"
publish = false

[dependencies]
base64 = "0.22"
chrono = "0.4"
crossterm = "*"
open = "*"
regex = "1"
reqwest = { version = "0.12", default-features = false, features = ["rustls-tls"] }
ring = "0.17"
serde = { version = "1", features = ["derive"] }
serde_json = "1"
serde_urlencoded = "0.7"
tokio = { version = "1", features = ["rt", "rt-multi-thread"] }
warp = "0.3"
