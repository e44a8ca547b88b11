[package]
name = "chat_relay"
version = "0.1.0"
edition = "2021"
publish = false

[dependencies]
actix = "0.13"
actix-codec = "0.5"
actix-web = "4"
actix-web-actors = "4"
byteorder = "1"
bytes = "1"
env_logger = "0.11"
log = "0.4"
rand = "0.8"
serde = { version = "1", features = ["derive"] }
serde_json = "1"
tokio = { version = "1", features = ["net", "io-util"] }
tokio-util = { version = "0.7", features = ["codec"] }
