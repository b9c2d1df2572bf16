[package]
name = "roulette_wheel"
version = "0.1.0"
edition = "2021"

[dependencies]
rand = "0.3"
