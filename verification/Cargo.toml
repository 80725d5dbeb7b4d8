[package]
name = "ultrawave"
version = "0.1.0"
edition = "2021"
publish = false

[dependencies]
biquad = "0.4.2"
