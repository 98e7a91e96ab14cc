[package]
name = "rgrep"
version = "0.1.0"
edition = "2021"
publish = false

[dependencies]
regex = "1"
memmap2 = "0.9"
atty = "0.2"
