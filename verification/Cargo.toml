[package]
name = "amt"
version = "0.1.0"
edition = "2021"
publish = false

[dependencies]
ark-bn254 = "=0.6.0"
ark-ec = "=0.6.0"
ark-ff = "=0.6.0"
ark-poly = "=0.6.0"
ark-serialize = "=0.6.0"
ark-std = "=0.6.0"
rand = "=0.8.8"
