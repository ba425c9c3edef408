[package]
name = "seabox"
version = "0.1.0"
edition = "2021"
publish = false

[dependencies]
anyhow = "1"
clap = { version = "4", features = ["derive"] }
dirs = "5"
landlock = "0.4"
libc = "0.2"
