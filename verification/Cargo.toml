[package]
name = "tone_mark"
version = "0.1.0"
edition = "2021"
publish = false

[dependencies]
serde_json = "1"
midir = "0.10"
rfd = { version = "0.14", default-features = false, features = ["gtk3"] }
