[package]
name = "q_shell"
version = "0.1.0"
edition = "2021"
publish = false

[dependencies]
shlex = "=1.3.0"
bevy = { version = "=0.17.3", default-features = false }
tiny_bail = "*"
