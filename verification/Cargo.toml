[package]
name = "rv"
version = "0.1.0"
edition = "2021"
publish = false

[dependencies]
sha2 = "0.10"
clap = { version = "4", features = ["derive"] }
ureq = { version = "2", default-features = false }
flate2 = "1"
tar = "0.4"
camino = "1"
fs-err = "*"
anstream = "*"
owo-colors = "*"
thiserror = "*"
