[package]
name = "rope_lib"
version = "0.1.0"
edition = "2021"
publish = false

[dependencies]
froggy-rand = "*"
rand = "0.8"
serde = { version = "1", features = ["derive"] }
serde_json = "1"
