[package]
name = "parallel_pallets"
version = "0.1.0"
edition = "2021"
publish = false

[dependencies]
frame-support = "=41.0.2"
frame-system = "=41.0.2"
orml-traits = "=1.5.0"
parity-scale-codec = { version = "=3.7.5", features = ["derive"] }
scale-info = { version = "=2.11.6", features = ["derive"] }
sp-runtime = "=42.0.0"
sp-std = "=14.0.0"
