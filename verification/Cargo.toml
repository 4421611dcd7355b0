[package]
name = "judos"
version = "0.1.0"
edition = "2021"
publish = false

[dependencies]
chrono = "0.4"
crossbeam = "0.8"
ctrlc = "3"
env_logger = "0.11"
log = "0.4"
serde = { version = "1", features = ["derive"] }
serde_yaml = "0.9"
typetag = "0.2"
