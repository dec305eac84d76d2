[package]
name = "circle_fit"
version = "0.1.0"
edition = "2021"
publish = false

[dependencies]
cordic = "0.1"
fixed = "1"
heapless = "0.8"
