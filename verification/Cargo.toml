[package]
name = "sniffer"
version = "0.1.0"
edition = "2021"
publish = false

[dependencies]
nom = "7"
nix = { version = "0.29", features = ["socket", "net"] }
libc = "0.2"
tokio = { version = "1", features = ["rt", "rt-multi-thread", "sync", "net"] }

[dev-dependencies]
rand = "0.8"
pnet = "*"
