[package]
name = "rstimer"
version = "0.1.0"
edition = "2021"
publish = false

[dependencies]
rand = "*"
chrono = "*"
crossterm = "*"
termint = "*"
dirs = "*"
