[package]
name = "dirpeek"
version = "0.1.0"
edition = "2021"
publish = false

[dependencies]
console = "*"
clap = { version = "*", features = ["derive"] }
libc = "*"
