[package]
name = "rpi_gpio"
version = "0.1.0"
edition = "2021"
publish = false

[dependencies]
nix = { version = "=0.31.3", features = ["mman"] }
yansi = "=1.0.1"
