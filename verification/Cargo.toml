[package]
name = "dialpwm"
version = "0.1.0"
edition = "2021"
publish = false

[dependencies]
clap = { version = "=4.6.7", features = ["derive"] }
serialport = { version = "=4.10.1", default-features = false }
fltk = "=1.5.23"
core_affinity = "0.8"
