[package]
name = "kitty_copy_pager"
version = "0.1.0"
edition = "2021"
publish = false

[dependencies]
clap = { version = "4", features = ["derive"] }
crossterm = { version = "0.29", features = ["osc52"] }
regex = "1"
strip-ansi-escapes = "0.2"
unicode-width = "0.2"
log = "0.4"
simplelog = "0.12"
