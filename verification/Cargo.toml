[package]
name = "eth_driver_interface"
version = "0.1.0"
edition = "2021"
publish = false

[dependencies]
heapless = "=0.7.17"
smoltcp = "=0.10.0"
zerocopy = { version = "=0.7.35", features = ["derive"] }
num_enum = { version = "=0.7.6", default-features = false }
tock-registers = "=0.8.1"
embedded-hal = "=0.2.7"
nb = "=1.1.0"
