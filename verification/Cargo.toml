[package]
name = "toniowm"
version = "0.1.0"
edition = "2021"
publish = false

[dependencies]
indexmap = "*"
xcb = "*"
crossbeam = "*"
clap = { version = "*", features = ["derive"] }
expanduser = "*"
anyhow = "*"
