[package]
name = "gpgmime"
version = "0.1.0"
edition = "2021"
publish = false

[dependencies]
clap = "*"
sequoia-openpgp = "*"
