[package]
name = "mtdi"
version = "0.1.0"
edition = "2021"
publish = false

[dependencies]
libc = "0.2"
mach2 = "0.4"
syn = { version = "2", features = ["full", "visit"] }
