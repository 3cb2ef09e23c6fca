[package]
name = "prelauncher"
version = "0.1.0"
edition = "2021"
publish = false

[dependencies]
anyhow = "1"
log = "0.4"
tokio = { version = "1", default-features = false, features = ["fs"] }
zip = { version = "2", default-features = false, features = ["deflate"] }
