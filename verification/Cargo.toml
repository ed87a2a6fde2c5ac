[package]
name = "chip_viewer_native"
version = "0.1.0"
edition = "2021"
publish = false

[dependencies]
anyhow = "=1.0.104"
clap = { version = "=4.6.7", features = ["derive"] }
csv = "=1.4.0"
image = { version = "0.25", default-features = false, features = ["png"] }
rstar = "=0.14.0"
serde = { version = "=1.0.229", features = ["derive"] }
serde_json = "=1.0.154"
