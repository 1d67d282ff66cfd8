[package]
name = "ef_drivers"
version = "0.1.0"
edition = "2021"
publish = false

[dependencies]
display-interface = "*"
embedded-hal = "*"
embedded-hal-async = "*"
embedded-io = "*"
embedded-io-async = "*"
embedded-graphics-core = "*"
mipidsi = "*"
