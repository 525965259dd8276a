[package]
name = "termax"
version = "0.1.0"
edition = "2021"
publish = false

[dependencies]
vte = "0.13"
portable-pty = "0.8"
libc = "0.2"
