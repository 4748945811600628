[package]
name = "bt_math"
version = "0.1.0"
edition = "2021"
publish = false

[dependencies]
bytemuck = "*"
libm = "*"
rustc_apfloat = "*"
