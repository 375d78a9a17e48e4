[package]
name = "star_trak"
version = "0.1.0"
edition = "2021"
publish = false

[dependencies]
chrono = "=0.4.45"
serde = { version = "=1.0.229", features = ["derive"] }
serde_json = "=1.0.154"
sgp4 = "=2.4.0"
ureq = { version = "*", features = ["json"] }
