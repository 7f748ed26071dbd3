[package]
name = "noir"
version = "0.1.0"
edition = "2021"
publish = false

[dependencies]
rltk = "=0.8.7"
specs = "=0.16.1"
specs-derive = "=0.4.1"
