[package]
name = "envy"
version = "0.4.2"
edition = "2021"
publish = false

[dependencies]
serde = "1.0"
