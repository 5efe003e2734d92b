[package]
name = "netiface_store"
version = "0.1.0"
edition = "2021"
publish = false

[dependencies]
pnet = "*"
serde = { version = "*", features = ["derive"] }
serde_json = "*"
