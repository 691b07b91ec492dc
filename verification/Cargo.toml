[package]
name = "lorawan_nvm"
version = "0.1.0"
edition = "2021"
publish = false

[dependencies]
embassy-stm32 = { version = "=0.6.0", default-features = false, features = ["stm32wl55jc-cm4"] }
lorawan = { version = "=0.9.0", default-features = false, features = ["default-crypto"] }
rand_core = "=0.6.4"
