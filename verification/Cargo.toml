[package]
name = "pathtracer"
version = "0.1.0"
edition = "2021"
publish = false

[dependencies]
rand = "0.7"
png = "0.16"
