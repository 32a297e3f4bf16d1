[package]
name = "prefixdevname"
version = "0.1.0"
edition = "2021"
publish = false

[dependencies]
regex = "1"
rust-ini = "*"
libc = "0.2"
libudev = "*"
log = "0.4"
env_logger = "*"
