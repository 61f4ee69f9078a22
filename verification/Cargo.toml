[package]
name = "chip8"
version = "0.1.0"
edition = "2021"
publish = false

[dependencies]
clap = "2"
cursive = { version = "*", default-features = false, features = ["crossterm-backend"] }
rand = "0.8"
sdl2 = "*"
tui = "*"
