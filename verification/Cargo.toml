[package]
name = "selectfb"
version = "0.1.0"
edition = "2021"
publish = false

[dependencies]
flexbuffers = "0.2"
