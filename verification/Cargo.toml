[package]
name = "ascii_render"
version = "0.1.0"
edition = "2021"
publish = false

[dependencies]
alacritty_terminal = "*"
anyhow = "1"
clap = { version = "4", features = ["derive"] }
image = "0.24"
indicatif = "*"
log = "0.4"
thiserror = "1"
walkdir = "2"
