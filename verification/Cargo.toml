[package]
name = "mail_thread"
version = "0.1.0"
edition = "2021"
publish = false

[dependencies]
supercow = "0.1"
