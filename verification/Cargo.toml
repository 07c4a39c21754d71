[package]
name = "httptunnel"
version = "0.1.0"
edition = "2021"
publish = false

[dependencies]
url = "*"
futures = "*"
async-std = "*"
