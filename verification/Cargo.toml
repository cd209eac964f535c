[package]
name = "qotd"
version = "0.2.0"
edition = "2021"
publish = false

[dependencies]
byteorder = "1"
clap = "2"
rand = "0.7"
