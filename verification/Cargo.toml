[package]
name = "membench"
version = "0.1.0"
edition = "2021"
publish = false

[dependencies]
clap = "*"
clap_derive = "*"
latches = "*"
