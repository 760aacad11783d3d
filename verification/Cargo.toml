[package]
name = "assetchunk"
version = "0.1.0"
edition = "2021"
publish = false

[dependencies]
file-format = "*"
crossterm = "*"
