[package]
name = "scheme_sys"
version = "0.1.0"
edition = "2021"
publish = false

[dependencies]
redox_syscall = "=0.2.16"
