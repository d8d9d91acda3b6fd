[package]
name = "quadrupel"
version = "0.1.0"
edition = "2021"
publish = false

[dependencies]
alloc-cortex-m = "*"
cortex-m = "0.7"
cortex-m-rt = "0.7"
fixed = "*"
nb = "1"
nrf51-hal = "*"
nrf51-pac = { version = "*", features = ["rt"] }
ringbuffer = "*"
