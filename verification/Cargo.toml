[package]
name = "yuexu"
version = "0.4.4"
edition = "2021"
publish = false

[dependencies]
chrono = "0.4"
lunar_rust = "*"
serde = { version = "1", features = ["derive"] }
serde_json = "1"
anyhow = "1"
url = "2"
resvg = "*"
