[package]
name = "regex_input"
version = "0.1.0"
edition = "2021"
publish = false

[dependencies]
regex-syntax = "*"
