[package]
name = "tinyguardian"
version = "0.1.0"
edition = "2021"
publish = false

[dependencies]
bson = "1"
mongodb = { version = "1.1", default-features = false, features = ["tokio-runtime"] }
serenity = "0.9"
tokio = { version = "0.2", features = ["macros", "rt-threaded", "blocking", "sync", "time"] }
reqwest = { version = "0.10", default-features = false, features = ["json", "rustls-tls"] }
rlua = "0.17"
serde = { version = "1", features = ["derive"] }
serde_json = "1"
once_cell = "1"
lazy_static = "1"
r2d2_redis = "0.13"
kankyo = "0.3"
