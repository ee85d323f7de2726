[package]
name = "clipvault"
version = "0.1.0"
edition = "2021"
publish = false

[dependencies]
sha2 = "=0.10.9"
hex = "=0.4.3"
url = "=2.5.8"
serde = { version = "=1.0.229", features = ["derive"] }
serde_json = "=1.0.154"
chrono = { version = "=0.4.45", default-features = false, features = ["clock", "std"] }
rusqlite = { version = "=0.31.0", features = ["bundled"] }
parking_lot = "=0.12.5"
arboard = { version = "=3.7.0", default-features = false, features = ["image-data"] }
reqwest = { version = "=0.12.28", default-features = false, features = ["blocking", "json", "rustls-tls"] }
image = { version = "=0.25.10", default-features = false, features = ["png"] }
