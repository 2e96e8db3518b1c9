[package]
name = "rustle"
version = "0.1.0"
edition = "2021"
publish = false

[dependencies]
crossterm = "*"
ropey = "*"
unicode-segmentation = "*"
unicode-width = "*"
