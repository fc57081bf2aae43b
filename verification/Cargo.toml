[package]
name = "console_wordle_rust"
version = "0.1.0"
edition = "2021"
publish = false

[dependencies]
console = "0.15"
json = "0.12"
rand = "0.8"
