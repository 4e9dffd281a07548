[package]
name = "dice_rust"
version = "0.1.0"
edition = "2021"
publish = false

[dependencies]
rand = "0.9"
rustc_apfloat = "*"
clap = { version = "4", features = ["derive"] }
