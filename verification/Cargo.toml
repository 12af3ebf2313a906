[package]
name = "limber"
version = "1.1.1"
edition = "2021"
publish = false

[dependencies]
url = "2"
serde_json = "1"
anyhow = "1"
clap = "3"
tokio = { version = "1", features = ["macros", "rt-multi-thread", "io-std", "io-util"] }
futures = "0.3"
bytelines = "2"
elasticsearch = { version = "=8.19.0-alpha.1", default-features = false, features = ["rustls-tls"] }
