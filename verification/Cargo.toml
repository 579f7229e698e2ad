[package]
name = "skycalc"
version = "0.1.0"
edition = "2021"
publish = false

[dependencies]
chrono = "0.4"
libm = "0.2"
serde = { version = "1", features = ["derive"] }
serde_yaml = "0.9"
