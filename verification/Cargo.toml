[package]
name = "tokio_linux_aio"
version = "0.1.0"
edition = "2021"
publish = false

[dependencies]
aio-bindings = "*"
futures = "*"
libc = "*"
memmap = "*"
nix = { version = "*", features = ["fs", "event"] }
parking_lot = "*"
region = "*"
thiserror = "*"
tokio = { version = "*", features = ["rt", "sync", "net", "io-util", "time"] }
