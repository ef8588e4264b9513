[package]
name = "particles_system"
version = "0.1.0"
edition = "2021"
publish = false

[dependencies]
indicatif = "*"
rand = "*"
serde = { version = "*", features = ["derive"] }
serde_json = "*"
sqlite = "*"
