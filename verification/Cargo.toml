[package]
name = "rte"
version = "0.1.0"
edition = "2021"
publish = false

[dependencies]
nonmax = "0.5"
arrayvec = "0.7"
