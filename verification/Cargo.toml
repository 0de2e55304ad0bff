[package]
name = "fedora_gpu_manager"
version = "1.0.0"
edition = "2021"
publish = false

[dependencies]
regex = "1"
once_cell = "1"
async-channel = "2"
gtk4 = "0.9"
libadwaita = { version = "0.7", features = ["v1_4"] }
