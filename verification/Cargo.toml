[package]
name = "gear_git"
version = "0.1.0"
edition = "2021"
publish = false

[dependencies]
rand = "0.8"
gstd = "1"
gmeta = "1"
