[package]
name = "bananatype"
version = "0.1.0"
edition = "2021"
publish = false

[dependencies]
crossterm = "0.25"
rand = "0.8"
termion = "1.5"
tui = "0.19"
