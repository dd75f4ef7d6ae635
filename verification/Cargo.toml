[package]
name = "twstock"
version = "0.1.0"
edition = "2021"
publish = false

[dependencies]
serde_json = "1"
encoding_rs = "0.8"
tl = "0.7"
reqwest = { version = "0.12", default-features = false }
