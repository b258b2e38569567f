[package]
name = "place_rs"
version = "0.1.0"
edition = "2021"
publish = false

[dependencies]
tokio = { version = "1", features = ["sync", "rt-multi-thread", "macros", "time", "io-std", "io-util"] }
sha2 = "0.10"
flate2 = "1"
image = { version = "0.24", default-features = false, features = ["png"] }
serde = { version = "1", features = ["derive"] }
serde_json = "1"
anyhow = "1"
dirs = "4"
chrono = { version = "0.4", default-features = false, features = ["clock"] }
actix = "0.13"
actix-web = "4"
actix-web-actors = "4"
tokio-tungstenite = "0.18"
futures-util = "0.3"
lazy_static = "1"
async-std = "1"
async-trait = "0.1"
