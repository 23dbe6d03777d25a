[package]
name = "sdock"
version = "0.1.0"
edition = "2021"
publish = false

[dependencies]
libharuhishot = "=0.2.5"
nix = { version = "=0.29.0", features = ["fs", "mman"] }
wayland-client = "=0.31.15"
wayland-protocols = { version = "=0.31.2", features = ["client"] }
