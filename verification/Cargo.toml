[package]
name = "w25q128jv"
version = "0.1.0"
edition = "2021"
publish = false

[dependencies]
embedded-hal = "1"
embassy-time = "*"
embassy-stm32 = { version = "*", default-features = false, features = ["stm32f405rg"] }
