[package]
name = "ranger"
version = "0.1.0"
edition = "2021"
publish = false

[dependencies]
anyhow = "=1.0.104"
sha3 = "=0.10.9"
uuid = { version = "=1.29.1", features = ["v4"] }
chrono = "=0.4.45"
log = "=0.4.35"
sdl-parser = "=0.21.2"
depper = "=0.4.0"
actix = "=0.13.5"
futures = "=0.3.34"
serde_json = "=1.0.154"
async-trait = "=0.1.92"
tokio = { version = "=1.54.1", features = ["time"] }
bigdecimal = "=0.4.11"
lettre = { version = "0.11", default-features = false, features = ["smtp-transport", "builder", "rustls-tls"] }
