[package]
name = "obegraensad"
version = "0.1.0"
edition = "2021"
publish = false

[dependencies]
cortex-m = "=0.7.10"
cortex-m-rt = "=0.7.7"
embedded-hal = "=1.0.0"
fugit = "=0.3.9"
panic-halt = "=0.2.0"
portable-atomic = "=1.15.0"
rand = { version = "=0.8.8", default-features = false }
rand_xoshiro = "=0.6.0"
rp-pico = "=0.9.0"
