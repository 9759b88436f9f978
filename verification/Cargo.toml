[package]
name = "bufr"
version = "0.1.0"
edition = "2021"
publish = false

[dependencies]
csv = "*"
anyhow = "*"
structopt = "*"
once_cell = "*"
