[package]
name = "feedback"
version = "0.1.0"
edition = "2021"
publish = false

[dependencies]
ringbuf = "0.4"
anyhow = "1"
cpal = "0.15"
