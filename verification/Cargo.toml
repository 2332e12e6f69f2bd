[package]
name = "starry_api"
version = "0.1.0"
edition = "2021"
publish = false

[dependencies]
axerrno = "=0.1.2"
linux-raw-sys = "=0.12.1"
x86 = "=0.52.0"

[dev-dependencies]
axfs_vfs = "=0.1.2"
