[package]
name = "snake_game"
version = "0.1.0"
edition = "2021"
publish = false

[dependencies]
object = "=0.40.0"
rand = "=0.9.5"
memmap2 = "=0.9.11"
ratatui = "=0.30.2"
ratatui-image = { version = "=11.1.0", default-features = false, features = ["image-defaults", "crossterm"] }
image = "=0.25.10"
color-eyre = "=0.6.5"
