[package]
name = "expiration_list"
version = "0.1.0"
edition = "2021"
publish = false

[dependencies]
fnv = "1.0"
serde = { version = "1.0", features = ["derive"] }
