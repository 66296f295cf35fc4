[package]
name = "xpbf"
version = "0.1.0"
edition = "2021"
publish = false

[dependencies]
spbflib = "*"
upbflib = "*"
clap = "*"
rust-i18n = "*"
sys-locale = "*"
