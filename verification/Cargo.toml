[package]
name = "deet"
version = "0.1.0"
edition = "2021"
publish = false

[dependencies]
nix = "0.17.0"
libc = "0.2.68"
rand = "0.6.0"
rustyline = "6.1.2"
crossbeam-channel = "0.4.2"
addr2line = "0.11.0"
object = "0.17.0"
memmap = "0.7.0"
