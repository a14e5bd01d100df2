[package]
name = "chisel"
version = "0.1.0"
edition = "2021"
publish = false

[dependencies]
fxhash = "0.2"
clap = { version = "4", features = ["derive"] }
crossterm = "*"
atty = "0.2"
lexical = "*"
