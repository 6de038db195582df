[package]
name = "gqg"
version = "0.1.0"
edition = "2021"
publish = false

[dependencies]
crypto_box = "*"
getrandom = "*"
anyhow = "*"
ansi_term = "*"
chrono = "*"
