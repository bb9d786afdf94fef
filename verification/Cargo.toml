[package]
name = "scrap"
version = "0.5.0"
edition = "2021"
publish = false

[dependencies]
drm = "0.14"
lazy_static = "1"
libc = "0.2"
log = "0.4"
serde = { version = "1", features = ["derive"] }
serde_json = "1"
