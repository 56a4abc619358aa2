[package]
name = "cherrypie"
version = "0.1.0"
edition = "2021"
publish = false

[dependencies]
regex = "*"
toml = "*"
libc = "*"
x11rb = { version = "*", features = ["randr"] }
