[package]
name = "memory_buffers"
version = "0.1.0"
edition = "2021"
publish = false

[dependencies]
itoa = "1"
libc = "0.2"
mmap-rs-with-map-from-existing = "*"
