[package]
name = "archetect_lib"
version = "0.1.0"
edition = "2021"
publish = false

[dependencies]
Inflector = "0.11"
linked-hash-map = { version = "0.5", features = ["serde_impl"] }
log = "0.4"
regex = "1"
serde = { version = "1", features = ["derive"] }
serde_json = "1"
serde_yaml = "0.8"
slug = "0.1"
unic-segment = "0.9"
