[package]
name = "karyll"
version = "0.1.0"
edition = "2021"
publish = false

[dependencies]
ab_glyph = "0.2"
anyhow = "1"
libc = "0.2"
