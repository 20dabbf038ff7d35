[package]
name = "voxtral_mini_realtime"
version = "0.1.0"
edition = "2021"
publish = false

[dependencies]
anyhow = "1"
burn = { version = "=0.20.1", default-features = false, features = ["wgpu"] }
cubecl = { version = "=0.9.0", default-features = false, features = ["std", "wgpu"] }
half = "=2.7.1"
tracing = "0.1"
