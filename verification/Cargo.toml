[package]
name = "fragger"
version = "0.1.0"
edition = "2021"
publish = false

[dependencies]
fltk = "*"
fltk-theme = "*"
rfd = "*"
