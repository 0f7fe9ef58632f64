[package]
name = "frisbee"
version = "0.1.0"
edition = "2021"
publish = false

[dependencies]
argh = "*"
owo-colors = "*"
termcolor = "*"
