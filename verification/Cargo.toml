[package]
name = "coordenadas"
version = "0.1.0"
edition = "2021"
publish = false

[dependencies]
regex = "1"
csv = "1"
serde = { version = "1", features = ["derive"] }
serde_yaml = "0.9"
serde_json = "1"
gtk4 = { version = "0.9", features = ["v4_10"] }
