[package]
name = "belle"
version = "0.2.0"
edition = "2021"
publish = false

[dependencies]
clap = { version = "*", features = ["derive"] }
colored = "*"
regex = "*"
ctrlc = "*"
crossterm = "*"
