[package]
name = "aethertune"
version = "0.1.0"
edition = "2021"
publish = false

[dependencies]
crossterm = "0.28"
libc = "0.2"
ratatui = "0.29"
tokio = { version = "1", features = ["macros", "rt-multi-thread"] }
