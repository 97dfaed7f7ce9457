[package]
name = "density_map"
version = "0.1.0"
edition = "2021"
publish = false

[dependencies]
chrono = "0.4"
image = { version = "0.23", default-features = false, features = ["png"] }
nannou = "0.19"
rand = "0.8"
