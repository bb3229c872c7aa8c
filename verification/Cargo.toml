[package]
name = "starry"
version = "0.1.0"
edition = "2021"
publish = false

[dependencies]
bitflags = "*"
image = "*"
log = "*"
resize = "*"
serde = "*"
serde_derive = "*"
termios = "*"
toml = "*"
