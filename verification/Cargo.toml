[package]
name = "yulong_bdn"
version = "0.1.0"
edition = "2021"
publish = false

[dependencies]
libsm = "*"
rand = "*"
async-std = "*"
futures = "*"
