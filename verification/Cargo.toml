[package]
name = "asciiquarium"
version = "0.1.0"
edition = "2021"
publish = false

[dependencies]
chrono = "0.4"
crossterm = "0.28"
rand = { version = "0.8", features = ["small_rng"] }
