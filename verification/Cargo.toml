[package]
name = "tilescript"
version = "0.1.0"
edition = "2021"
publish = false

[dependencies]

[dev-dependencies]
nom = "7"
nom-supreme = "0.8"
