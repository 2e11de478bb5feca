[package]
name = "png2bmp"
version = "0.1.0"
edition = "2021"

[dependencies]
inflate = "*"
bmp = "*"
