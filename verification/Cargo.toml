[package]
name = "youchoose"
version = "0.1.1"
edition = "2021"
publish = false

[dependencies]
ncurses = "5.100.0"
