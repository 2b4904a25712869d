[package]
name = "field_compute"
version = "0.1.0"
edition = "2021"
publish = false

[dependencies]
bytemuck = { version = "=1.25.2", features = ["extern_crate_alloc"] }
futures = "=0.3.34"
image = { version = "=0.23.14", default-features = false, features = ["png"] }
wgpu = "=0.5.2"
