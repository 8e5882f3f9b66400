[package]
name = "leaf_markdown"
version = "0.1.0"
edition = "2021"
publish = false

[dependencies]
anyhow = "1"
mmdflux = "*"
unicode-width = "0.2"
unicode-segmentation = "1"
