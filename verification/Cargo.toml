[package]
name = "voxel_world"
version = "0.1.0"
edition = "2021"
publish = false

[dependencies]
noise = "0.8"
rand = "0.8"
rayon = "1"
serde = { version = "1", features = ["derive"] }
toml = "0.8"
cgmath = "0.18"
