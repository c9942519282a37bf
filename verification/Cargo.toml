[package]
name = "xi_view"
version = "0.1.0"
edition = "2021"
publish = false

[dependencies]
termion = "*"
xrl = "*"
