[package]
name = "cs39"
version = "0.1.0"
edition = "2021"
publish = false

[dependencies]
byte-unit = "4"
csv = "1"
num_cpus = "1"
rand = "0.8"
serde = { version = "1", features = ["derive"] }

[dev-dependencies]
regex = "1"
