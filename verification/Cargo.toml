[package]
name = "gx_rust_nextion"
version = "0.1.0"
edition = "2021"
publish = false

[dependencies]
heapless = "0.8"
num-traits = "0.2"
embedded-hal = "0.2"
nb = "1"
