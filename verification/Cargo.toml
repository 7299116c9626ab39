[package]
name = "dang"
version = "0.1.0"
edition = "2021"
publish = false

[dependencies]
regex = "1"
clap = { version = "4", features = ["derive"] }
rustyline = "*"
dirs = "*"
pretty = { version = "*", features = ["termcolor"] }
escape8259 = "*"
unescape = "*"
