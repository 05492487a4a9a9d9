[package]
name = "nix_opengl_driver"
version = "0.1.0"
edition = "2021"
publish = false

[dependencies]
anyhow = "*"
chrono = "*"
clap = { version = "*", features = ["derive"] }
dirs = "*"
env_logger = "*"
handlebars = "*"
libc = "*"
log = "*"
serde_json = "*"
