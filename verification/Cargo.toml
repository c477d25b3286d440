[package]
name = "calcparse"
version = "0.1.0"
edition = "2021"

[dependencies]
statrs = { version = "=0.19.1", default-features = false }
