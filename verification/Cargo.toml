[package]
name = "device_driver"
version = "0.1.0"
edition = "2021"
publish = false

[dependencies]
bitvec = "=1.1.1"
convert_case = "=0.12.0"
kdl = "=6.7.1"
miette = "=7.6.0"
