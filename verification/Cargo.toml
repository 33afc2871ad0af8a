[package]
name = "wgpu_engine"
version = "0.1.0"
edition = "2021"
publish = false

[dependencies]
petgraph = "=0.6.5"
fixedbitset = "=0.4.2"
log = "=0.4.34"
tokio = { version = "=1.54.1", features = ["rt", "rt-multi-thread"] }
wgpu = "=0.8.1"
bytemuck = "=1.25.2"
downcast-rs = "=1.2.1"
field-offset = "=0.3.6"
