[package]
name = "caching_proxy"
version = "0.1.0"
edition = "2021"
publish = false

[dependencies]
actix-web = { version = "3", default-features = false }
anyhow = "1"
crossbeam = "0.8"
serde = { version = "1", features = ["derive"] }
serde_yaml = "0.8"
structopt = "0.3"
