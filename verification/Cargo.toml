[package]
name = "si5351"
version = "0.1.0"
edition = "2021"
publish = false

[dependencies]
cast = "*"
embedded-hal = "0.2.7"
