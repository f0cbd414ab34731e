[package]
name = "wastrumentation"
version = "0.1.0"
edition = "2021"
publish = false

[dependencies]
tempfile = "=3.27.0"
anyhow = "=1.0.104"
clap = { version = "=4.6.7", features = ["derive"] }
clio = { version = "=0.3.5", features = ["clap-parse"] }
serde = { version = "=1.0.229", features = ["derive"] }
