[package]
name = "bxt_rs"
version = "0.1.0"
edition = "2021"
publish = false

[dependencies]
bytemuck = "1"
color-eyre = "0.6"
