[package]
name = "ngc_geometry"
version = "0.1.0"
edition = "2021"

[dependencies]
bitflags = "1.3.2"
num-traits = "0.2"
