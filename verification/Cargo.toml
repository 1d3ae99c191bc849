[package]
name = "matrix_profile"
version = "0.1.0"
edition = "2021"
publish = false

[dependencies]
rustfft = "6"

[dev-dependencies]
rand = "0.8"
rand_chacha = "0.3"
