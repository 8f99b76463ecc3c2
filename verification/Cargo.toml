[package]
name = "oxideav_vaapi"
version = "0.0.3"
edition = "2021"
publish = false

[dependencies]
libc = "0.2"
libloading = "0.8"
oxideav-bitstream = "0.0"
oxideav-core = "*"
