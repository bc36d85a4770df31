[package]
name = "operoid"
version = "0.1.0"
edition = "2021"
publish = false

[dependencies]
regex = "=1.13.1"
percent-encoding = "=2.3.2"
mail-parser = "=0.11.9"
encoding_rs = "0.8"
dirs = "=7.0.0"
chrono = "=0.4.45"
serde = { version = "=1.0.229", features = ["derive"] }
serde_json = "=1.0.154"
toml = "=1.1.8"
