[package]
name = "digital_life_core"
version = "0.1.0"
edition = "2021"
publish = false

[dependencies]
rand = "0.9"
rand_chacha = "0.9"
rstar = "0.12"
serde = { version = "1", features = ["derive"] }
