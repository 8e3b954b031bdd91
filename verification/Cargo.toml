[package]
name = "arch_hotspot"
version = "0.1.0"
edition = "2021"
publish = false

[dependencies]
anyhow = "1"
fltk = "1"
qrcode = { version = "*", default-features = false }
