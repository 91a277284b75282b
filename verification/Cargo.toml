[package]
name = "mailin"
version = "0.1.0"
edition = "2021"
publish = false

[dependencies]
smol = "*"
dnssector = "*"
