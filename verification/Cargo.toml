[package]
name = "stegtool"
version = "0.1.0"
edition = "2021"
publish = false

[dependencies]
miniz_oxide = "=0.9.1"
clap = "=4.6.7"
image = { version = "=0.25.10", default-features = false, features = ["png"] }
