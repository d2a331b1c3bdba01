[package]
name = "doge_term"
version = "0.1.0"
edition = "2021"
publish = false

[dependencies]
portable-pty = "*"
tokio = { version = "*", features = ["rt-multi-thread", "macros"] }
once_cell = "*"
