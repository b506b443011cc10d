[package]
name = "christina"
version = "0.1.0"
edition = "2021"
publish = false

[dependencies]
image = "0.24"
ureq = "2"
arboard = "3"
