[package]
name = "gridded_table"
version = "0.1.0"
edition = "2021"
publish = false

[dependencies]
csv = "1"
termion = "1"
tui = "0.6"
