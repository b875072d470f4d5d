[package]
name = "chatroom"
version = "0.1.0"
edition = "2021"
publish = false

[dependencies]
actix-cors = "0.7"
actix-files = "0.6"
actix-web = "4"
actix-ws = "0.2"
chrono = { version = "0.4", features = ["serde"] }
futures-util = "0.3"
hex = "0.4"
lazy_static = "1"
lettre = "0.11"
rand = "0.8"
regex = "1"
serde = { version = "1", features = ["derive"] }
serde_json = "1"
sha2 = "0.10"
uuid = { version = "1", features = ["v4"] }
