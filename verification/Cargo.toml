[package]
name = "termpix"
version = "0.1.0"
edition = "2021"
publish = false

[dependencies]
image = "0.24"
clap = { version = "4", features = ["derive"] }
crossterm = "*"
ctrlc = "*"
termion = "*"
