[package]
name = "swagit"
version = "0.1.0"
edition = "2021"
publish = false

[dependencies]
atty = "*"
clap = "*"
colored = "*"
ctrlc = "*"
dialoguer = { version = "*", features = ["fuzzy-select"] }
