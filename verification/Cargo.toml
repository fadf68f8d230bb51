[package]
name = "grid_projector"
version = "0.1.0"
edition = "2021"
publish = false

[dependencies]
ndarray = "0.15"
egui = "0.27"
env_logger = "0.10"
log = "0.4"
serde = { version = "1", features = ["derive"] }
