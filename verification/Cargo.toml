[package]
name = "virtio_fs"
version = "0.1.0"
edition = "2021"
publish = false

[dependencies]
epoll = "=4.4.0"
futures = "=0.1.31"
hyper = "=0.11.27"
libc = "=0.2.191"
nix = "=0.26.4"
serde = { version = "=1.0.229", features = ["derive"] }
sys_util = "0.1.0"
