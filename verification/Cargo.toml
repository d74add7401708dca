[package]
name = "scoped_serde"
version = "0.1.0"
edition = "2021"
publish = false

[dependencies]
seize = "=0.5.1"
serde = "=1.0.229"

[dev-dependencies]
serde_json = "=1.0.154"
