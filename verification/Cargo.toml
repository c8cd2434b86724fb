[package]
name = "spritedit"
version = "0.1.0"
edition = "2021"
publish = false

[dependencies]
image = { version = "0.25", default-features = false, features = ["png", "jpeg", "gif", "bmp"] }
serde = { version = "1", features = ["derive"] }
egui = { version = "0.28", default-features = false }
ureq = "2"
env_logger = "0.11"
