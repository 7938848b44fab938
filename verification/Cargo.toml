[package]
name = "able_script"
version = "0.1.0"
edition = "2021"

[dependencies]
logos = "0.12"
rand = "0.8"
