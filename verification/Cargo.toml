[package]
name = "ascii_d"
version = "0.1.0"
edition = "2021"
publish = false
