[package]
name = "png2icns"
version = "1.0.0"
edition = "2021"
publish = false

[dependencies]
anyhow = "*"
clap = { version = "*", features = ["derive"] }
icns = "*"
image = "*"
