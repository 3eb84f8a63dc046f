[package]
name = "batch_kernel"
version = "0.1.0"
edition = "2021"
publish = false

[dependencies]
lazy_static = "1.4.0"
sbi-rt = { version = "0.0.2", features = ["legacy"] }
