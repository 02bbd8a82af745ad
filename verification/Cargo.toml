[package]
name = "mistralrs-oxide"
version = "0.1.0"
edition = "2021"
publish = false

[dependencies]
cudarc = { version = "=0.12.1", features = ["cuda-12060"] }
cuda-core = "=0.4.0"
half = "=2.7.1"
thiserror = "=1.0.69"
fastrand = "=2.5.0"
safetensors = "=0.4.5"
