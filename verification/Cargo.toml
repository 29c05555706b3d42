[package]
name = "laputa"
version = "0.1.0"
edition = "2021"
publish = false

[dependencies]
rlua = "0.17"
