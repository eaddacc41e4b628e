[package]
name = "disk_drive"
version = "0.1.0"
edition = "2021"
publish = false

[dependencies]
eyre = "0.6"
floppy-disk = "*"
nyoom = "*"
tokio = { version = "1", features = ["fs", "io-util", "rt", "macros"] }
tracing = "0.1"
