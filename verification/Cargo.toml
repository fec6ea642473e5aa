[package]
name = "komorebi"
version = "0.1.0"
edition = "2021"
publish = false

[dependencies]
hibitset = "*"
downcast-rs = "*"
winit = "0.28"
tracing = "*"
tracing-subscriber = "*"
