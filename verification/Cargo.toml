[package]
name = "string_evolution"
version = "0.1.0"
edition = "2021"
publish = false

[dependencies]
rand = "*"
