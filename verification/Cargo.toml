[package]
name = "svd_img"
version = "0.1.0"
edition = "2021"
publish = false

[dependencies]
clap = "2"
image = "0.24"
nalgebra = "0.32"
wav = "1"
