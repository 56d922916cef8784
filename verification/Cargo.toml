[package]
name = "jump-cli"
version = "0.4.0"
edition = "2021"
publish = false

[dependencies]
nerd-font-symbols = "*"
clap = { version = "4", features = ["derive"] }
crossterm = "0.28"
dirs = "5"
image = "0.25"
open = "5"
ratatui = "0.29"
serde = { version = "1", features = ["derive"] }
serde_json = "1"
walkdir = "2"
