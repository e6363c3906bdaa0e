[package]
name = "shc_decoder"
version = "0.1.0"
edition = "2021"
publish = false

[dependencies]
anyhow = "1"
base64 = "0.13"
inflate = "0.4"
image = "*"
quircs = "*"
