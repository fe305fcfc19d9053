[package]
name = "fnlt"
version = "0.1.0"
edition = "2021"
publish = false

[dependencies]
bigdecimal = "*"
clap = { version = "*", features = ["cargo"] }
