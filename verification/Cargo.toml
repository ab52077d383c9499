[package]
name = "nlm2elf"
version = "0.1.0"
edition = "2021"
publish = false

[dependencies]
byteorder = "=1.5.0"
object = { version = "=0.29.0", features = ["write"] }
