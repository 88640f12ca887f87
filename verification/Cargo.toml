[package]
name = "vfs"
version = "0.1.0"
edition = "2021"
publish = false

[dependencies]
anyhow = "1"
num_enum = "0.7"
