[package]
name = "rextedi"
version = "0.1.0"
edition = "2021"
publish = false

[dependencies]
crossterm = "*"
unicode-segmentation = "1"
