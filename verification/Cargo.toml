[package]
name = "megs"
version = "0.1.0"
edition = "2021"
publish = false

[dependencies]
macroquad = "=0.4.16"
uuid = { version = "=1.29.0", features = ["v4"] }
wasmer = "=7.0.1"
