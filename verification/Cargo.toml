[package]
name = "gamespace"
version = "0.1.0"
edition = "2021"
publish = false

[dependencies]
humansize = "1.1"
fs2 = "0.4"
