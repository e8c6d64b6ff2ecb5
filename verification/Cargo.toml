[package]
name = "stl2gltf"
version = "0.1.0"
edition = "2021"
publish = false

[dependencies]
clap = { version = "*", features = ["derive"] }
stl_io = "*"

[dev-dependencies]
serde_json = "*"
gltf = { version = "*", default-features = false }
