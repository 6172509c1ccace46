[package]
name = "agent-flock"
version = "0.1.0"
edition = "2021"
publish = false

[dependencies]
libc = "0.2"
sha2 = "0.10"
signal-hook = "0.3"
