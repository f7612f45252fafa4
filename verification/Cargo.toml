[package]
name = "memreader"
version = "0.1.0"
edition = "2021"
publish = false

[dependencies]
cfg-if = "0.1"
libc = "0.2"
winapi = "0.2"
kernel32-sys = "0.2"
