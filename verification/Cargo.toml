[package]
name = "herdr_espresso"
version = "0.1.0"
edition = "2021"
publish = false

[dependencies]
clap = { version = "4.5", features = ["derive"] }
serde_json = "1"
libc = "0.2"
signal-hook = "0.3"
