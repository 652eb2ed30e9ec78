[package]
name = "pico"
version = "0.1.0"
edition = "2021"
publish = false

[dependencies]
clap = "=4.6.7"
gix-discover = "=0.57.1"
gix-hash = { version = "=0.28.1", features = ["sha1"] }
inquire = "=0.9.4"
owo-colors = "=4.4.0"
serde = { version = "=1.0.229", features = ["derive"] }
serde_json = "=1.0.154"
