[package]
name = "image_dds"
version = "0.1.0"
edition = "2021"
publish = false

[dependencies]
intel_tex_2 = "=0.4.0"
half = { version = "=2.7.1", features = ["bytemuck"] }
bytemuck = { version = "=1.25.2", features = ["derive"] }
ddsfile = "=0.5.2"
image = { version = "=0.25.10", default-features = false }
thiserror = "=1.0.69"
serde = { version = "=1.0.229", features = ["derive"] }
strum = { version = "=0.26.3", features = ["derive"] }
num-traits = "=0.2.19"
link-cplusplus = "1"
