[package]
name = "nrf-ble"
version = "0.1.0"
edition = "2021"
publish = false

[dependencies]
aes = "0.8"
cortex-m = "0.7"
nrf52832-pac = { version = "0.12", default-features = false }
