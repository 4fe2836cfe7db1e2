[package]
name = "linear_distance_pi"
version = "0.1.0"
edition = "2021"
publish = false

[dependencies]
malachite = "*"
malachite-base = "*"
clap = { version = "4", features = ["derive"] }
