[package]
name = "kitsu"
version = "0.2.0"
edition = "2021"
publish = false

[dependencies]
serde_json = "*"
http = "*"
reqwest = { version = "*", default-features = false, features = ["blocking"] }
