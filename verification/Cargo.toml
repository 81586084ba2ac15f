[package]
name = "libbcachefs"
version = "0.1.0"
edition = "2021"
publish = false

[dependencies]
uuid = { version = "*", features = ["v4"] }
clap = { version = "*", features = ["derive"] }
env_logger = "*"
log = "*"
libc = "*"
nix = { version = "*", features = ["ioctl"] }
libblkid-rs = "*"
