[package]
name = "device_locator"
version = "0.1.0"
edition = "2021"
publish = false

[dependencies]
tokio = { version = "*", features = ["rt-multi-thread", "macros", "time"] }
reqwest = { version = "*", default-features = false, features = ["rustls-tls", "cookies"] }
rumqttc = { version = "*", features = ["use-rustls", "url"] }
serde = { version = "*", features = ["derive"] }
serde_json = "*"
async-trait = "*"
