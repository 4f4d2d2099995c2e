[package]
name = "monitor-helper"
version = "0.1.0"
edition = "2021"
publish = false

[dependencies]
clap = { version = "*", features = ["derive"] }
ddc-hi = "*"
nusb = "*"
futures-lite = "*"
