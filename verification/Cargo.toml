[package]
name = "zyxt"
version = "0.1.0"
edition = "2021"
publish = false

[dependencies]
regex = "1"
unicode-segmentation = "1"
ansi_term = "0.12"
clap = { version = "3", features = ["derive"] }
rustyline = "9"
dirs = "4"
backtrace = "0.3"
