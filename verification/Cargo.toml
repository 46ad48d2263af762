[package]
name = "copygum"
version = "0.1.0"
edition = "2021"
publish = false

[dependencies]
image = { version = "0.25", default-features = false, features = ["png"] }
base64 = "0.22"
fastrand = "2"
serde = { version = "1", features = ["derive"] }
serde_json = "1"
chrono = "0.4"
