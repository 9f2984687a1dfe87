[package]
name = "npb_ep"
version = "0.1.0"
edition = "2021"
publish = false

[dependencies]
pkg_compile_time = "*"
rustc_version = "*"
