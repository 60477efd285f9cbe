[package]
name = "p0f"
version = "0.1.0"
edition = "2021"
publish = false

[dependencies]
pnet = "*"
nom = "4"
