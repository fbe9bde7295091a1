[package]
name = "gnss_rtk"
version = "0.1.0"
edition = "2021"
publish = false

[dependencies]
hifitime = "*"
gnss-rs = "*"
nalgebra = "*"
map_3d = "*"
anise = "*"
nyx-space = "*"
serde = { version = "1", features = ["derive"] }
thiserror = "*"
log = "*"
