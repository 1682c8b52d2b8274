[package]
name = "ctxopt_core"
version = "0.1.0"
edition = "2021"
publish = false

[dependencies]
portable-pty = "*"
tokio = { version = "*", features = ["sync", "time", "rt"] }
nix = { version = "*", features = ["term"] }
libc = "*"
