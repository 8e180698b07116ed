[package]
name = "orbit_save"
version = "0.1.0"
edition = "2021"
publish = false

[dependencies]
ron = "*"
serde = "1"
