[package]
name = "voxelstream"
version = "0.1.0"
edition = "2021"
publish = false

[dependencies]
fastrand = "2"
flate2 = "1"
indexmap = "2"
noise = "0.9"
rusqlite = { version = "0.32", features = ["bundled"] }
