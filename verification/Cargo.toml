[package]
name = "governor"
version = "0.1.0"
edition = "2021"
publish = false

[dependencies]
futures-timer = "3.0"
