[package]
name = "fskmodem"
version = "0.1.0"
edition = "2021"
publish = false

[dependencies]
murmur3 = "*"
rust-crypto = "*"
clap = "*"
elf = "*"
cpal = "*"
