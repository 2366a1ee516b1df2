[package]
name = "not_vim"
version = "0.1.0"
edition = "2021"
publish = false

[dependencies]
anyhow = "1"
crossterm = "0.27"
gag = "1"
ropey = "1"
