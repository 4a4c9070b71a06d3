[package]
name = "vzglyd_kernel"
version = "0.1.0"
edition = "2021"
publish = false

[dependencies]
naga = { version = "*", features = ["wgsl-in"] }
font8x8 = "*"
serde = { version = "1", features = ["derive"] }
serde_json = "1"
bytemuck = { version = "1", features = ["derive"] }
glam = "*"
gltf = { version = "*", features = ["extras", "KHR_lights_punctual", "names"] }
thiserror = "*"
