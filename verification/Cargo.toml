[package]
name = "rpdns"
version = "0.1.0"
edition = "2021"
publish = false

[dependencies]
mio = "0.6"
nix = { version = "0.29", default-features = false, features = ["socket", "net"] }
